//! The desktop's configuration: defaults, what a configuration document says,
//! and the document that a configuration is saved as.
use vstd::prelude::*;

use crate::assoc::{assoc_get, assoc_map, assoc_put, distinct_names};
use crate::hk::{
    document_filled_in, filled_in, has_key, hk_as_number, hk_copy, hk_count, hk_doc, hk_entry,
    hk_flag, hk_get, hk_insert, hk_kind, hk_len, hk_list, hk_new, hk_node, hk_parse, hk_parsed,
    hk_resolve, hk_resolved, hk_section, hk_text, hk_whole, is_count, is_plain, is_readable,
    is_resolvable, is_whole, lemma_filled_in_lookup, lemma_lookup, lemma_plain_names_nothing,
    lemma_plain_stays, lemma_put_new, lookup, names_environment, nodes, readable, reads_as,
    resolvable, value_text, HkEntry, HkKind, HkNode,
};
use crate::paths::{join_path, joined, text_view};
use crate::text::join3;
use hk_parser::{HkConfig, HkError, HkValue};

verus! {

pub open spec fn string_view(s: Option<String>) -> Option<Seq<char>> {
    match s {
        Some(t) => Some(t@),
        None => None,
    }
}

pub open spec fn string_views(v: Seq<String>) -> Seq<Seq<char>> {
    v.map_values(|s: String| s@)
}

/// The entries of a named section.
pub open spec fn section_of(doc: Seq<HkEntry>, name: Seq<char>) -> Option<Seq<HkEntry>> {
    match lookup(doc, name) {
        Some(HkNode::Section(entries)) => Some(entries),
        _ => None,
    }
}

fn section<'a>(doc: &'a HkConfig, name: &str) -> (r: Option<&'a HkConfig>)
    ensures
        match r {
            Some(s) => section_of(hk_doc(*doc), name@) == Some(hk_doc(*s)),
            None => section_of(hk_doc(*doc), name@) is None,
        },
{
    match hk_get(doc, name) {
        Some(v) => match hk_kind(v) {
            HkKind::Section => match v.as_map() {
                Ok(m) => Some(m),
                Err(_) => None,
            },
            _ => None,
        },
        None => None,
    }
}

/// A value read as text; lists and sections are not.
fn text_of(v: &HkValue) -> (r: Option<String>)
    ensures
        string_view(r) == value_text(hk_node(*v)),
{
    match hk_kind(v) {
        HkKind::Text | HkKind::Number | HkKind::Flag => match v.as_string() {
            Ok(t) => Some(t),
            Err(_) => None,
        },
        HkKind::List | HkKind::Section => None,
    }
}

pub open spec fn field(doc: Seq<HkEntry>, name: Seq<char>, key: Seq<char>) -> Option<HkNode> {
    match section_of(doc, name) {
        Some(entries) => lookup(entries, key),
        None => None,
    }
}

pub open spec fn u32_or(v: Option<HkNode>, default: u32) -> u32 {
    match v {
        Some(HkNode::Number(n)) => n.to_u32,
        _ => default,
    }
}

pub open spec fn flag_or(v: Option<HkNode>, default: bool) -> bool {
    match v {
        Some(HkNode::Flag(b)) => b,
        _ => default,
    }
}

pub open spec fn text_or(v: Option<HkNode>, default: Seq<char>) -> Seq<char> {
    match v {
        Some(v) => match value_text(v) {
            Some(t) => t,
            None => default,
        },
        None => default,
    }
}

pub open spec fn text_opt(v: Option<HkNode>) -> Option<Seq<char>> {
    match v {
        Some(v) => value_text(v),
        None => None,
    }
}

/// Whether `v` is the number that a field holds, or zero where it holds none.
pub open spec fn is_number_or_zero(field: Option<HkNode>, v: HkNode) -> bool {
    match field {
        Some(HkNode::Number(n)) => v == HkNode::Number(n),
        _ => is_whole(v, 0),
    }
}

/// At least one.
pub open spec fn count_or(v: Option<HkNode>, default: usize) -> usize {
    let n = match v {
        Some(HkNode::Number(n)) => n.to_usize,
        _ => default,
    };
    if n < 1 {
        1
    } else {
        n
    }
}

/// The texts of a list, in order; what cannot be read as text is left out.
pub open spec fn list_texts(items: Seq<HkNode>) -> Seq<Seq<char>>
    decreases items.len(),
{
    if items.len() == 0 {
        Seq::empty()
    } else {
        let before = list_texts(items.drop_last());
        match value_text(items.last()) {
            Some(t) => before.push(t),
            None => before,
        }
    }
}

pub open spec fn list_or(v: Option<HkNode>, default: Seq<Seq<char>>) -> Seq<Seq<char>> {
    match v {
        Some(HkNode::List(items)) => list_texts(items),
        _ => default,
    }
}

/// A table with the texts of a section put over it, in order.
pub open spec fn overlaid(
    base: Map<Seq<char>, Seq<char>>,
    entries: Seq<HkEntry>,
) -> Map<Seq<char>, Seq<char>>
    decreases entries.len(),
{
    if entries.len() == 0 {
        base
    } else {
        let before = overlaid(base, entries.drop_last());
        match value_text(entries.last().value) {
            Some(t) => before.insert(entries.last().key, t),
            None => before,
        }
    }
}

fn read_number(s: &HkConfig, key: &str) -> (r: Option<(u32, usize)>)
    ensures
        match r {
            Some(n) => lookup(hk_doc(*s), key@) is Some && reads_as(
                lookup(hk_doc(*s), key@)->Some_0,
                n,
            ),
            None => !(lookup(hk_doc(*s), key@) matches Some(HkNode::Number(_))),
        },
{
    match hk_get(s, key) {
        Some(v) => match hk_kind(v) {
            HkKind::Number => hk_as_number(v),
            _ => None,
        },
        None => None,
    }
}

fn read_u32(s: &HkConfig, key: &str, default: u32) -> (r: u32)
    ensures
        r == u32_or(lookup(hk_doc(*s), key@), default),
{
    match read_number(s, key) {
        Some((n, _)) => n,
        None => default,
    }
}

fn read_value(s: &HkConfig, key: &str) -> (r: HkValue)
    ensures
        is_number_or_zero(lookup(hk_doc(*s), key@), hk_node(r)),
{
    match hk_get(s, key) {
        Some(v) => match hk_kind(v) {
            HkKind::Number => hk_copy(v),
            _ => hk_whole(0),
        },
        None => hk_whole(0),
    }
}

fn read_count(s: &HkConfig, key: &str, default: usize) -> (r: usize)
    ensures
        r == count_or(lookup(hk_doc(*s), key@), default),
{
    let n: usize = match read_number(s, key) {
        Some((_, n)) => n,
        None => default,
    };
    if n < 1 {
        1
    } else {
        n
    }
}

fn read_flag(s: &HkConfig, key: &str, default: bool) -> (r: bool)
    ensures
        r == flag_or(lookup(hk_doc(*s), key@), default),
{
    match hk_get(s, key) {
        Some(v) => match hk_kind(v) {
            HkKind::Flag => match v.as_bool() {
                Ok(b) => b,
                Err(_) => default,
            },
            _ => default,
        },
        None => default,
    }
}

fn read_opt(s: &HkConfig, key: &str) -> (r: Option<String>)
    ensures
        string_view(r) == text_opt(lookup(hk_doc(*s), key@)),
{
    match hk_get(s, key) {
        Some(v) => text_of(v),
        None => None,
    }
}

fn read_text(s: &HkConfig, key: &str, default: String) -> (r: String)
    ensures
        r@ == text_or(lookup(hk_doc(*s), key@), default@),
{
    match read_opt(s, key) {
        Some(t) => t,
        None => default,
    }
}

fn texts_of(items: &Vec<HkValue>) -> (r: Vec<String>)
    ensures
        string_views(r@) == list_texts(nodes(items@)),
{
    let mut out: Vec<String> = Vec::new();
    let mut i: usize = 0;
    let ghost all = nodes(items@);
    assert(all.take(0) =~= Seq::empty());
    assert(string_views(out@) =~= Seq::empty());
    while i < items.len()
        invariant
            i <= items.len(),
            all == nodes(items@),
            string_views(out@) == list_texts(all.take(i as int)),
        decreases items.len() - i,
    {
        proof {
            assert(all.take(i as int + 1).drop_last() =~= all.take(i as int));
            assert(all.take(i as int + 1).last() == hk_node(items@[i as int]));
        }
        match text_of(&items[i]) {
            Some(t) => {
                let ghost before = string_views(out@);
                out.push(t);
                assert(string_views(out@) =~= before.push(t@));
            },
            None => {},
        }
        i = i + 1;
    }
    assert(all.take(items.len() as int) =~= all);
    out
}

fn read_list(s: &HkConfig, key: &str, default: Vec<String>) -> (r: Vec<String>)
    ensures
        string_views(r@) == list_or(lookup(hk_doc(*s), key@), string_views(default@)),
{
    match hk_get(s, key) {
        Some(v) => match hk_kind(v) {
            HkKind::List => match v.as_array() {
                Ok(items) => texts_of(items),
                Err(_) => default,
            },
            _ => default,
        },
        None => default,
    }
}

#[derive(Debug, Clone, Copy, PartialEq, Eq, Structural)]
pub struct GeneralConfig {
    pub gaps_px: u32,
    pub border_px: u32,
    pub focus_follows_mouse: bool,
    pub default_tiling: bool,
}

impl Default for GeneralConfig {
    fn default() -> (r: GeneralConfig)
        ensures
            r.gaps_px == 8,
            r.border_px == 2,
            !r.focus_follows_mouse,
            r.default_tiling,
    {
        GeneralConfig { gaps_px: 8, border_px: 2, focus_follows_mouse: false, default_tiling: true }
    }
}

#[derive(Debug, PartialEq, Eq)]
pub struct AppearanceConfig {
    pub wallpaper: Option<String>,
    pub active_border_color: String,
    pub inactive_border_color: String,
    pub cursor_theme: String,
    pub cursor_size: u32,
}

impl Default for AppearanceConfig {
    fn default() -> (r: AppearanceConfig)
        ensures
            r.wallpaper is None,
            r.active_border_color@ == "#3b82f6"@,
            r.inactive_border_color@ == "#334155"@,
            r.cursor_theme@ == "default"@,
            r.cursor_size == 24,
    {
        AppearanceConfig {
            wallpaper: None,
            active_border_color: String::from_str("#3b82f6"),
            inactive_border_color: String::from_str("#334155"),
            cursor_theme: String::from_str("default"),
            cursor_size: 24,
        }
    }
}

#[derive(Debug, PartialEq)]
pub struct InputConfig {
    pub keyboard_layout: String,
    pub keyboard_variant: String,
    pub repeat_rate: u32,
    pub repeat_delay: u32,
    pub natural_scroll: bool,
    pub tap_to_click: bool,
    /// A number, as a document holds it.
    pub mouse_sensitivity: HkValue,
}

impl Default for InputConfig {
    fn default() -> (r: InputConfig)
        ensures
            r.keyboard_layout@ == "us"@,
            r.keyboard_variant@ == Seq::<char>::empty(),
            r.repeat_rate == 25,
            r.repeat_delay == 600,
            !r.natural_scroll,
            r.tap_to_click,
            is_whole(hk_node(r.mouse_sensitivity), 0),
    {
        InputConfig {
            keyboard_layout: String::from_str("us"),
            keyboard_variant: String::new(),
            repeat_rate: 25,
            repeat_delay: 600,
            natural_scroll: false,
            tap_to_click: true,
            mouse_sensitivity: hk_whole(0),
        }
    }
}

#[derive(Debug, PartialEq, Eq)]
pub struct WorkspacesConfig {
    pub count: usize,
    pub names: Vec<String>,
}

impl Default for WorkspacesConfig {
    fn default() -> (r: WorkspacesConfig)
        ensures
            r.count == 5,
            r.names@.len() == 0,
    {
        WorkspacesConfig { count: 5, names: Vec::new() }
    }
}

/// The configuration. Keybindings are kept as actions with their combinations,
/// each action once.
#[derive(Debug, PartialEq)]
pub struct Config {
    pub general: GeneralConfig,
    pub appearance: AppearanceConfig,
    pub input: InputConfig,
    pub workspaces: WorkspacesConfig,
    pub keybindings: Vec<(String, String)>,
    pub autostart: Vec<String>,
}

/// The keybindings that hold where the configuration says nothing.
pub open spec fn default_table() -> Map<Seq<char>, Seq<char>> {
    Map::<Seq<char>, Seq<char>>::empty()
        .insert("close_window"@, "Super+Q"@)
        .insert("toggle_fullscreen"@, "Super+F"@)
        .insert("toggle_floating"@, "Super+Space"@)
        .insert("cycle_windows"@, "Super+Tab"@)
        .insert("launch_terminal"@, "Super+Return"@)
        .insert("workspace_1"@, "Super+1"@)
        .insert("workspace_2"@, "Super+2"@)
        .insert("workspace_3"@, "Super+3"@)
        .insert("workspace_4"@, "Super+4"@)
        .insert("workspace_5"@, "Super+5"@)
}

pub fn default_keybindings() -> (r: Vec<(String, String)>)
    ensures
        distinct_names(r@),
        assoc_map(r@) == default_table(),
{
    let mut m: Vec<(String, String)> = Vec::new();
    assert(assoc_map(m@) == Map::<Seq<char>, Seq<char>>::empty());
    assoc_put(&mut m, String::from_str("close_window"), String::from_str("Super+Q"));
    assoc_put(&mut m, String::from_str("toggle_fullscreen"), String::from_str("Super+F"));
    assoc_put(&mut m, String::from_str("toggle_floating"), String::from_str("Super+Space"));
    assoc_put(&mut m, String::from_str("cycle_windows"), String::from_str("Super+Tab"));
    assoc_put(&mut m, String::from_str("launch_terminal"), String::from_str("Super+Return"));
    assoc_put(&mut m, String::from_str("workspace_1"), String::from_str("Super+1"));
    assoc_put(&mut m, String::from_str("workspace_2"), String::from_str("Super+2"));
    assoc_put(&mut m, String::from_str("workspace_3"), String::from_str("Super+3"));
    assoc_put(&mut m, String::from_str("workspace_4"), String::from_str("Super+4"));
    assoc_put(&mut m, String::from_str("workspace_5"), String::from_str("Super+5"));
    m
}

impl Default for Config {
    fn default() -> (r: Config)
        ensures
            r.well_formed(),
            reads(Seq::empty(), r),
    {
        let c = Config {
            general: GeneralConfig::default(),
            appearance: AppearanceConfig::default(),
            input: InputConfig::default(),
            workspaces: WorkspacesConfig::default(),
            keybindings: default_keybindings(),
            autostart: Vec::new(),
        };
        assert(string_views(c.workspaces.names@) =~= Seq::empty());
        assert(string_views(c.autostart@) =~= Seq::empty());
        c
    }
}

/// Whether `c` is what the document `doc` says: each field is the one that stands
/// in the document, or its default where the document has none of the right kind.
pub open spec fn reads(doc: Seq<HkEntry>, c: Config) -> bool {
    &&& c.general.gaps_px == u32_or(field(doc, "general"@, "gaps_px"@), 8)
    &&& c.general.border_px == u32_or(field(doc, "general"@, "border_px"@), 2)
    &&& c.general.focus_follows_mouse == flag_or(
        field(doc, "general"@, "focus_follows_mouse"@),
        false,
    )
    &&& c.general.default_tiling == flag_or(field(doc, "general"@, "default_tiling"@), true)
    &&& string_view(c.appearance.wallpaper) == text_opt(field(doc, "appearance"@, "wallpaper"@))
    &&& c.appearance.active_border_color@ == text_or(
        field(doc, "appearance"@, "active_border_color"@),
        "#3b82f6"@,
    )
    &&& c.appearance.inactive_border_color@ == text_or(
        field(doc, "appearance"@, "inactive_border_color"@),
        "#334155"@,
    )
    &&& c.appearance.cursor_theme@ == text_or(
        field(doc, "appearance"@, "cursor_theme"@),
        "default"@,
    )
    &&& c.appearance.cursor_size == u32_or(field(doc, "appearance"@, "cursor_size"@), 24)
    &&& c.input.keyboard_layout@ == text_or(field(doc, "input"@, "keyboard_layout"@), "us"@)
    &&& c.input.keyboard_variant@ == text_or(
        field(doc, "input"@, "keyboard_variant"@),
        Seq::empty(),
    )
    &&& c.input.repeat_rate == u32_or(field(doc, "input"@, "repeat_rate"@), 25)
    &&& c.input.repeat_delay == u32_or(field(doc, "input"@, "repeat_delay"@), 600)
    &&& c.input.natural_scroll == flag_or(field(doc, "input"@, "natural_scroll"@), false)
    &&& c.input.tap_to_click == flag_or(field(doc, "input"@, "tap_to_click"@), true)
    &&& is_number_or_zero(
        field(doc, "input"@, "mouse_sensitivity"@),
        hk_node(c.input.mouse_sensitivity),
    )
    &&& c.workspaces.count == count_or(field(doc, "workspaces"@, "count"@), 5)
    &&& string_views(c.workspaces.names@) == list_or(
        field(doc, "workspaces"@, "names"@),
        Seq::empty(),
    )
    &&& assoc_map(c.keybindings@) == (match section_of(doc, "keybindings"@) {
        Some(entries) => overlaid(default_table(), entries),
        None => default_table(),
    })
    &&& string_views(c.autostart@) == list_or(
        field(doc, "autostart"@, "commands"@),
        Seq::empty(),
    )
}

impl Config {
    /// Each action has one combination, and the mouse sensitivity is a number.
    pub open spec fn well_formed(self) -> bool {
        distinct_names(self.keybindings@) && hk_node(self.input.mouse_sensitivity) is Number
    }

    /// The configuration that a document describes.
    pub fn from_hk(doc: &HkConfig) -> (r: Config)
        ensures
            r.well_formed(),
            reads(hk_doc(*doc), r),
    {
        let mut c = Config::default();
        if let Some(s) = section(doc, "general") {
            c.general = GeneralConfig {
                gaps_px: read_u32(s, "gaps_px", 8),
                border_px: read_u32(s, "border_px", 2),
                focus_follows_mouse: read_flag(s, "focus_follows_mouse", false),
                default_tiling: read_flag(s, "default_tiling", true),
            };
        }
        if let Some(s) = section(doc, "appearance") {
            c.appearance = AppearanceConfig {
                wallpaper: read_opt(s, "wallpaper"),
                active_border_color: read_text(
                    s,
                    "active_border_color",
                    String::from_str("#3b82f6"),
                ),
                inactive_border_color: read_text(
                    s,
                    "inactive_border_color",
                    String::from_str("#334155"),
                ),
                cursor_theme: read_text(s, "cursor_theme", String::from_str("default")),
                cursor_size: read_u32(s, "cursor_size", 24),
            };
        }
        if let Some(s) = section(doc, "input") {
            c.input = InputConfig {
                keyboard_layout: read_text(s, "keyboard_layout", String::from_str("us")),
                keyboard_variant: read_text(s, "keyboard_variant", String::new()),
                repeat_rate: read_u32(s, "repeat_rate", 25),
                repeat_delay: read_u32(s, "repeat_delay", 600),
                natural_scroll: read_flag(s, "natural_scroll", false),
                tap_to_click: read_flag(s, "tap_to_click", true),
                mouse_sensitivity: read_value(s, "mouse_sensitivity"),
            };
        }
        if let Some(s) = section(doc, "workspaces") {
            let empty: Vec<String> = Vec::new();
            assert(string_views(empty@) =~= Seq::empty());
            c.workspaces = WorkspacesConfig {
                count: read_count(s, "count", 5),
                names: read_list(s, "names", empty),
            };
        }
        if let Some(s) = section(doc, "keybindings") {
            let n: usize = hk_len(s);
            let mut i: usize = 0;
            let mut table = default_keybindings();
            let ghost entries = hk_doc(*s);
            assert(entries.take(0) =~= Seq::empty());
            while i < n
                invariant
                    i <= n,
                    n == entries.len(),
                    entries == hk_doc(*s),
                    distinct_names(table@),
                    assoc_map(table@) == overlaid(default_table(), entries.take(i as int)),
                decreases n - i,
            {
                proof {
                    assert(entries.take(i as int + 1).drop_last() =~= entries.take(i as int));
                    assert(entries.take(i as int + 1).last() == entries[i as int]);
                }
                if let Some((action, value)) = hk_entry(s, i) {
                    match text_of(value) {
                        Some(combo) => assoc_put(&mut table, action.clone(), combo),
                        None => {},
                    }
                }
                i = i + 1;
            }
            assert(entries.take(n as int) =~= entries);
            c.keybindings = table;
        }
        if let Some(s) = section(doc, "autostart") {
            let empty: Vec<String> = Vec::new();
            assert(string_views(empty@) =~= Seq::empty());
            c.autostart = read_list(s, "commands", empty);
        }
        c
    }

    /// The combination of an action.
    pub fn keybinding(&self, action: &str) -> (r: Option<&str>)
        requires
            self.well_formed(),
        ensures
            match r {
                Some(combo) => assoc_map(self.keybindings@).contains_key(action@) && assoc_map(
                    self.keybindings@,
                )[action@] == combo@,
                None => !assoc_map(self.keybindings@).contains_key(action@),
            },
    {
        assoc_get(&self.keybindings, action)
    }
}

/// A text under its name.
pub open spec fn text_entry_is(e: HkEntry, key: Seq<char>, text: Seq<char>) -> bool {
    e.key == key && e.value == HkNode::Text(text)
}

pub open spec fn flag_entry_is(e: HkEntry, key: Seq<char>, b: bool) -> bool {
    e.key == key && e.value == HkNode::Flag(b)
}

pub open spec fn whole_entry_is(e: HkEntry, key: Seq<char>, n: u32) -> bool {
    e.key == key && is_whole(e.value, n)
}

/// A list of texts, one for each.
pub open spec fn list_entry_is(e: HkEntry, key: Seq<char>, texts: Seq<Seq<char>>) -> bool {
    e.key == key && e.value == HkNode::List(texts.map_values(|t: Seq<char>| HkNode::Text(t)))
}

/// The entries of the general section.
pub open spec fn writes_general(s: Seq<HkEntry>, g: GeneralConfig) -> bool {
    &&& s.len() == 4
    &&& whole_entry_is(s[0], "gaps_px"@, g.gaps_px)
    &&& whole_entry_is(s[1], "border_px"@, g.border_px)
    &&& flag_entry_is(s[2], "focus_follows_mouse"@, g.focus_follows_mouse)
    &&& flag_entry_is(s[3], "default_tiling"@, g.default_tiling)
}

/// The entries of the appearance section; the wallpaper comes first, if there is one.
pub open spec fn writes_appearance(s: Seq<HkEntry>, a: AppearanceConfig) -> bool {
    let n: int = if a.wallpaper is Some {
        1
    } else {
        0
    };
    &&& s.len() == n + 4
    &&& a.wallpaper matches Some(w) ==> text_entry_is(s[0], "wallpaper"@, w@)
    &&& text_entry_is(s[n], "active_border_color"@, a.active_border_color@)
    &&& text_entry_is(s[n + 1], "inactive_border_color"@, a.inactive_border_color@)
    &&& text_entry_is(s[n + 2], "cursor_theme"@, a.cursor_theme@)
    &&& whole_entry_is(s[n + 3], "cursor_size"@, a.cursor_size)
}

pub open spec fn writes_input(s: Seq<HkEntry>, c: InputConfig) -> bool {
    &&& s.len() == 7
    &&& text_entry_is(s[0], "keyboard_layout"@, c.keyboard_layout@)
    &&& text_entry_is(s[1], "keyboard_variant"@, c.keyboard_variant@)
    &&& whole_entry_is(s[2], "repeat_rate"@, c.repeat_rate)
    &&& whole_entry_is(s[3], "repeat_delay"@, c.repeat_delay)
    &&& flag_entry_is(s[4], "natural_scroll"@, c.natural_scroll)
    &&& flag_entry_is(s[5], "tap_to_click"@, c.tap_to_click)
    &&& s[6].key == "mouse_sensitivity"@
    &&& s[6].value == hk_node(c.mouse_sensitivity)
}

pub open spec fn writes_workspaces(s: Seq<HkEntry>, w: WorkspacesConfig) -> bool {
    &&& s.len() == 2
    &&& s[0].key == "count"@
    &&& is_count(s[0].value, w.count)
    &&& list_entry_is(s[1], "names"@, string_views(w.names@))
}

pub open spec fn writes_keybindings(s: Seq<HkEntry>, k: Seq<(String, String)>) -> bool {
    &&& s.len() == k.len()
    &&& forall|i: int| 0 <= i < k.len() ==> text_entry_is(#[trigger] s[i], k[i].0@, k[i].1@)
}

pub open spec fn writes_autostart(s: Seq<HkEntry>, commands: Seq<String>) -> bool {
    &&& s.len() == 1
    &&& list_entry_is(s[0], "commands"@, string_views(commands))
}

/// The entries of the section that stands in a document at index `i`.
pub open spec fn section_at(doc: Seq<HkEntry>, i: int, name: Seq<char>) -> Option<Seq<HkEntry>> {
    if doc[i].key == name {
        match doc[i].value {
            HkNode::Section(s) => Some(s),
            _ => None,
        }
    } else {
        None
    }
}

/// Whether `doc` is the document of `c`: the six sections in order, each with its
/// fields in order.
pub open spec fn writes(doc: Seq<HkEntry>, c: Config) -> bool {
    &&& doc.len() == 6
    &&& section_at(doc, 0, "general"@) matches Some(s) && writes_general(s, c.general)
    &&& section_at(doc, 1, "appearance"@) matches Some(s) && writes_appearance(s, c.appearance)
    &&& section_at(doc, 2, "input"@) matches Some(s) && writes_input(s, c.input)
    &&& section_at(doc, 3, "workspaces"@) matches Some(s) && writes_workspaces(s, c.workspaces)
    &&& section_at(doc, 4, "keybindings"@) matches Some(s) && writes_keybindings(
        s,
        c.keybindings@,
    )
    &&& section_at(doc, 5, "autostart"@) matches Some(s) && writes_autostart(s, c.autostart@)
}

proof fn lemma_general_keys()
    ensures
        "gaps_px"@ != "border_px"@,
        "gaps_px"@ != "focus_follows_mouse"@,
        "gaps_px"@ != "default_tiling"@,
        "border_px"@ != "focus_follows_mouse"@,
        "border_px"@ != "default_tiling"@,
        "focus_follows_mouse"@ != "default_tiling"@,
{
    reveal_strlit("gaps_px");
    reveal_strlit("border_px");
    reveal_strlit("focus_follows_mouse");
    reveal_strlit("default_tiling");
    assert("gaps_px"@.len() == 7
        && "border_px"@.len() == 9
        && "focus_follows_mouse"@.len() == 19
        && "default_tiling"@.len() == 14);
}

proof fn lemma_appearance_keys()
    ensures
        "wallpaper"@ != "active_border_color"@,
        "wallpaper"@ != "inactive_border_color"@,
        "wallpaper"@ != "cursor_theme"@,
        "wallpaper"@ != "cursor_size"@,
        "active_border_color"@ != "inactive_border_color"@,
        "active_border_color"@ != "cursor_theme"@,
        "active_border_color"@ != "cursor_size"@,
        "inactive_border_color"@ != "cursor_theme"@,
        "inactive_border_color"@ != "cursor_size"@,
        "cursor_theme"@ != "cursor_size"@,
{
    reveal_strlit("wallpaper");
    reveal_strlit("active_border_color");
    reveal_strlit("inactive_border_color");
    reveal_strlit("cursor_theme");
    reveal_strlit("cursor_size");
    assert("wallpaper"@.len() == 9
        && "active_border_color"@.len() == 19
        && "inactive_border_color"@.len() == 21
        && "cursor_theme"@.len() == 12
        && "cursor_size"@.len() == 11);
}

proof fn lemma_input_keys()
    ensures
        "keyboard_layout"@ != "keyboard_variant"@,
        "keyboard_layout"@ != "repeat_rate"@,
        "keyboard_layout"@ != "repeat_delay"@,
        "keyboard_layout"@ != "natural_scroll"@,
        "keyboard_layout"@ != "tap_to_click"@,
        "keyboard_layout"@ != "mouse_sensitivity"@,
        "keyboard_variant"@ != "repeat_rate"@,
        "keyboard_variant"@ != "repeat_delay"@,
        "keyboard_variant"@ != "natural_scroll"@,
        "keyboard_variant"@ != "tap_to_click"@,
        "keyboard_variant"@ != "mouse_sensitivity"@,
        "repeat_rate"@ != "repeat_delay"@,
        "repeat_rate"@ != "natural_scroll"@,
        "repeat_rate"@ != "tap_to_click"@,
        "repeat_rate"@ != "mouse_sensitivity"@,
        "repeat_delay"@ != "natural_scroll"@,
        "repeat_delay"@ != "tap_to_click"@,
        "repeat_delay"@ != "mouse_sensitivity"@,
        "natural_scroll"@ != "tap_to_click"@,
        "natural_scroll"@ != "mouse_sensitivity"@,
        "tap_to_click"@ != "mouse_sensitivity"@,
{
    reveal_strlit("keyboard_layout");
    reveal_strlit("keyboard_variant");
    reveal_strlit("repeat_rate");
    reveal_strlit("repeat_delay");
    reveal_strlit("natural_scroll");
    reveal_strlit("tap_to_click");
    reveal_strlit("mouse_sensitivity");
    assert("keyboard_layout"@.len() == 15
        && "keyboard_variant"@.len() == 16
        && "repeat_rate"@.len() == 11
        && "repeat_delay"@.len() == 12
        && "natural_scroll"@.len() == 14
        && "tap_to_click"@.len() == 12
        && "mouse_sensitivity"@.len() == 17
        && "repeat_delay"@[0] == 'r'
        && "tap_to_click"@[0] == 't');
}

proof fn lemma_workspaces_keys()
    ensures
        "count"@ != "names"@,
{
    reveal_strlit("count");
    reveal_strlit("names");
    assert("count"@.len() == 5
        && "names"@.len() == 5
        && "count"@[0] == 'c'
        && "names"@[0] == 'n');
}

proof fn lemma_section_names()
    ensures
        "general"@ != "appearance"@,
        "general"@ != "input"@,
        "general"@ != "workspaces"@,
        "general"@ != "keybindings"@,
        "general"@ != "autostart"@,
        "appearance"@ != "input"@,
        "appearance"@ != "workspaces"@,
        "appearance"@ != "keybindings"@,
        "appearance"@ != "autostart"@,
        "input"@ != "workspaces"@,
        "input"@ != "keybindings"@,
        "input"@ != "autostart"@,
        "workspaces"@ != "keybindings"@,
        "workspaces"@ != "autostart"@,
        "keybindings"@ != "autostart"@,
{
    reveal_strlit("general");
    reveal_strlit("appearance");
    reveal_strlit("input");
    reveal_strlit("workspaces");
    reveal_strlit("keybindings");
    reveal_strlit("autostart");
    assert("general"@.len() == 7
        && "appearance"@.len() == 10
        && "input"@.len() == 5
        && "workspaces"@.len() == 10
        && "keybindings"@.len() == 11
        && "autostart"@.len() == 9
        && "appearance"@[0] == 'a'
        && "workspaces"@[0] == 'w');
}

/// Whether the last entry was added to the ones that were there.
spec fn added(before: Seq<HkEntry>, after: Seq<HkEntry>, key: Seq<char>) -> bool {
    &&& after.len() == before.len() + 1
    &&& after.drop_last() == before
    &&& after.last().key == key
}

fn put_new(s: &mut HkConfig, key: &str, value: HkValue)
    requires
        !has_key(hk_doc(*old(s)), key@),
    ensures
        added(hk_doc(*old(s)), hk_doc(*final(s)), key@),
        hk_doc(*final(s)).last().value == hk_node(value),
{
    proof {
        lemma_put_new(hk_doc(*s), key@, hk_node(value));
    }
    hk_insert(s, String::from_str(key), value);
    assert(hk_doc(*s).drop_last() =~= hk_doc(*old(s)));
}

fn text_list(texts: &Vec<String>) -> (r: HkValue)
    ensures
        hk_node(r) == HkNode::List(string_views(texts@).map_values(|t: Seq<char>| HkNode::Text(t))),
{
    let mut items: Vec<HkValue> = Vec::new();
    let mut i: usize = 0;
    while i < texts.len()
        invariant
            i <= texts.len(),
            items.len() == i,
            forall|k: int| 0 <= k < i ==> hk_node(#[trigger] items@[k]) == HkNode::Text(texts@[k]@),
        decreases texts.len() - i,
    {
        items.push(hk_text(texts[i].clone()));
        i = i + 1;
    }
    assert(nodes(items@) =~= string_views(texts@).map_values(|t: Seq<char>| HkNode::Text(t)));
    hk_list(items)
}

impl GeneralConfig {
    fn to_hk(&self) -> (r: HkConfig)
        ensures
            writes_general(hk_doc(r), *self),
    {
        let mut s = hk_new();
        proof {
            lemma_general_keys();
        }
        put_new(&mut s, "gaps_px", hk_whole(self.gaps_px));
        put_new(&mut s, "border_px", hk_whole(self.border_px));
        put_new(&mut s, "focus_follows_mouse", hk_flag(self.focus_follows_mouse));
        put_new(&mut s, "default_tiling", hk_flag(self.default_tiling));
        s
    }
}

impl AppearanceConfig {
    fn to_hk(&self) -> (r: HkConfig)
        ensures
            writes_appearance(hk_doc(r), *self),
    {
        let mut s = hk_new();
        proof {
            lemma_appearance_keys();
        }
        if let Some(w) = &self.wallpaper {
            put_new(&mut s, "wallpaper", hk_text(w.clone()));
        }
        put_new(&mut s, "active_border_color", hk_text(self.active_border_color.clone()));
        put_new(&mut s, "inactive_border_color", hk_text(self.inactive_border_color.clone()));
        put_new(&mut s, "cursor_theme", hk_text(self.cursor_theme.clone()));
        put_new(&mut s, "cursor_size", hk_whole(self.cursor_size));
        s
    }
}

impl InputConfig {
    fn to_hk(&self) -> (r: HkConfig)
        requires
            hk_node(self.mouse_sensitivity) is Number,
        ensures
            writes_input(hk_doc(r), *self),
    {
        let mut s = hk_new();
        proof {
            lemma_input_keys();
        }
        put_new(&mut s, "keyboard_layout", hk_text(self.keyboard_layout.clone()));
        put_new(&mut s, "keyboard_variant", hk_text(self.keyboard_variant.clone()));
        put_new(&mut s, "repeat_rate", hk_whole(self.repeat_rate));
        put_new(&mut s, "repeat_delay", hk_whole(self.repeat_delay));
        put_new(&mut s, "natural_scroll", hk_flag(self.natural_scroll));
        put_new(&mut s, "tap_to_click", hk_flag(self.tap_to_click));
        put_new(&mut s, "mouse_sensitivity", hk_copy(&self.mouse_sensitivity));
        s
    }
}

impl WorkspacesConfig {
    fn to_hk(&self) -> (r: HkConfig)
        ensures
            writes_workspaces(hk_doc(r), *self),
    {
        let mut s = hk_new();
        proof {
            lemma_workspaces_keys();
        }
        put_new(&mut s, "count", hk_count(self.count));
        put_new(&mut s, "names", text_list(&self.names));
        s
    }
}

fn keybindings_to_hk(keys: &Vec<(String, String)>) -> (r: HkConfig)
    requires
        distinct_names(keys@),
    ensures
        writes_keybindings(hk_doc(r), keys@),
{
    let mut s = hk_new();
    let mut i: usize = 0;
    while i < keys.len()
        invariant
            i <= keys.len(),
            distinct_names(keys@),
            writes_keybindings(hk_doc(s), keys@.take(i as int)),
        decreases keys.len() - i,
    {
        let ghost before = hk_doc(s);
        proof {
            let done = keys@.take(i as int);
            assert forall|k: int| 0 <= k < before.len() implies (#[trigger] before[k]).key
                != keys@[i as int].0@ by {
                assert(text_entry_is(before[k], done[k].0@, done[k].1@));
                assert(keys@[k].0@ != keys@[i as int].0@);
            }
        }
        put_new(&mut s, keys[i].0.as_str(), hk_text(keys[i].1.clone()));
        i = i + 1;
        proof {
            let done = keys@.take(i as int);
            let after = hk_doc(s);
            assert forall|k: int| 0 <= k < done.len() implies text_entry_is(
                #[trigger] after[k],
                done[k].0@,
                done[k].1@,
            ) by {
                if k < before.len() {
                    assert(after[k] == after.drop_last()[k]);
                    let earlier = keys@.take(i - 1);
                    assert(text_entry_is(before[k], earlier[k].0@, earlier[k].1@));
                }
            }
        }
    }
    assert(keys@.take(keys.len() as int) =~= keys@);
    s
}

impl Config {
    /// The document that this configuration is saved as.
    pub fn to_hk(&self) -> (r: HkConfig)
        requires
            self.well_formed(),
        ensures
            writes(hk_doc(r), *self),
    {
        let mut autostart = hk_new();
        put_new(&mut autostart, "commands", text_list(&self.autostart));
        let mut doc = hk_new();
        proof {
            lemma_section_names();
        }
        put_new(&mut doc, "general", hk_section(self.general.to_hk()));
        put_new(&mut doc, "appearance", hk_section(self.appearance.to_hk()));
        put_new(&mut doc, "input", hk_section(self.input.to_hk()));
        put_new(&mut doc, "workspaces", hk_section(self.workspaces.to_hk()));
        put_new(&mut doc, "keybindings", hk_section(keybindings_to_hk(&self.keybindings)));
        put_new(&mut doc, "autostart", hk_section(autostart));
        doc
    }
}

/// The name of the configuration file of a session.
pub open spec fn file_name_of(session: Option<Seq<char>>) -> Seq<char> {
    match session {
        Some(name) => "config-"@ + name + ".hk"@,
        None => "config.hk"@,
    }
}

pub fn file_name_for(session_name: Option<&str>) -> (r: String)
    ensures
        r@ == file_name_of(text_view(session_name)),
{
    match session_name {
        Some(name) => join3("config-", name, ".hk"),
        None => String::from_str("config.hk"),
    }
}

/// The path of the user's configuration file of a session.
pub open spec fn user_path_of(
    config_dir: Option<Seq<char>>,
    session: Option<Seq<char>>,
) -> Seq<char> {
    joined(
        joined(
            (match config_dir {
                Some(dir) => dir,
                None => "."@,
            }),
            "HackerOS-Comp"@,
        ),
        file_name_of(session),
    )
}

/// The user's configuration file of a session, below the configuration
/// directory or, without one, below the current directory. It is the one that
/// settings are written to.
pub fn user_config_path(config_dir: Option<&str>, session_name: Option<&str>) -> (r: String)
    ensures
        r@ == user_path_of(text_view(config_dir), text_view(session_name)),
{
    let base = match config_dir {
        Some(dir) => dir,
        None => ".",
    };
    let dir = join_path(base, "HackerOS-Comp");
    join_path(dir.as_str(), file_name_for(session_name).as_str())
}

/// The configuration file that a session reads: the user's, or the default of the whole
/// system as long as the user has none.
pub fn config_path_for(
    config_dir: Option<&str>,
    session_name: Option<&str>,
    user_file_exists: bool,
) -> (r: String)
    ensures
        user_file_exists ==> r@ == user_path_of(text_view(config_dir), text_view(session_name)),
        !user_file_exists ==> r@ == "/etc/xdg/HackerOS-Comp/config.hk"@,
{
    if user_file_exists {
        user_config_path(config_dir, session_name)
    } else {
        String::from_str("/etc/xdg/HackerOS-Comp/config.hk")
    }
}

/// Where a session's configuration comes from.
#[derive(Debug, Clone, Copy, PartialEq, Eq, Structural)]
pub enum ConfigSource {
    User,
    System,
    BuiltIn,
}

/// The user's file comes before the system's, and that before the defaults.
pub fn config_source(user_exists: bool, system_exists: bool) -> (r: ConfigSource)
    ensures
        r == (if user_exists {
            ConfigSource::User
        } else if system_exists {
            ConfigSource::System
        } else {
            ConfigSource::BuiltIn
        }),
{
    if user_exists {
        ConfigSource::User
    } else if system_exists {
        ConfigSource::System
    } else {
        ConfigSource::BuiltIn
    }
}

/// Whether a configuration is that of a document, with its references filled in somehow.
pub open spec fn reads_filled_in(doc: Seq<HkEntry>, c: Config) -> bool {
    exists|d: Seq<HkEntry>| document_filled_in(doc, d) && #[trigger] reads(d, c)
}

/// What went wrong while a configuration was loaded.
#[derive(Debug)]
pub enum LoadProblem {
    /// The text is no document.
    Text(HkError),
    /// A reference could not be resolved.
    Reference(HkError),
    /// The document is too deep, or its references are too many, for them to be resolved.
    Unresolved,
}

/// Whether a document gives a configuration, and the problem on the way. References are
/// resolved unless that would go too deep. Only where the environment is referred to it is
/// open what they are replaced by.
pub open spec fn gives(doc: Seq<HkEntry>, c: Config, problem: Option<LoadProblem>) -> bool {
    if !resolvable(doc) {
        reads(doc, c) && problem matches Some(LoadProblem::Unresolved)
    } else if names_environment(HkNode::Section(doc)) {
        reads_filled_in(doc, c) && (problem is None || problem->Some_0 is Reference)
    } else if hk_resolved(doc).1 {
        reads(hk_resolved(doc).0, c) && problem is None
    } else {
        reads(hk_resolved(doc).0, c) && problem matches Some(LoadProblem::Reference(_))
    }
}

/// The configuration of a session: that of the document with its references filled in,
/// where there is one that could be read, and otherwise the defaults. A reference that
/// can not be resolved does no harm to the rest; the reason is handed back. A document
/// without references is read as it stands.
pub fn load_for(document: Option<HkConfig>) -> (r: (Config, Option<LoadProblem>))
    ensures
        r.0.well_formed(),
        match document {
            Some(doc) => gives(hk_doc(doc), r.0, r.1),
            None => reads(Seq::empty(), r.0) && r.1 is None,
        },
        document matches Some(doc) && is_plain(HkNode::Section(hk_doc(doc))) ==> reads(
            hk_doc(document->Some_0),
            r.0,
        ) && !(r.1 matches Some(LoadProblem::Reference(_))),
{
    match document {
        Some(given) => {
            let ghost start = hk_doc(given);
            let mut doc = given;
            if !is_resolvable(&doc) {
                return (Config::from_hk(&doc), Some(LoadProblem::Unresolved));
            }
            let problem = match hk_resolve(&mut doc) {
                Ok(()) => None,
                Err(e) => Some(LoadProblem::Reference(e)),
            };
            let config = Config::from_hk(&doc);
            proof {
                assert(document_filled_in(start, hk_doc(doc)) && reads(hk_doc(doc), config));
                assert(reads_filled_in(start, config));
                if is_plain(HkNode::Section(start)) {
                    lemma_plain_stays(HkNode::Section(start), HkNode::Section(hk_doc(doc)));
                }
            }
            (config, problem)
        },
        None => (Config::default(), None),
    }
}

/// The configuration of a session from the text of its file: that of the document which
/// the text says, or the defaults where it says none. What went wrong is handed back. A
/// text that can not be handed to the parser is not read at all.
pub fn load_text(text: &str) -> (r: Option<(Config, Option<LoadProblem>)>)
    ensures
        r is Some <==> readable(text@),
        r matches Some(loaded) ==> loaded.0.well_formed() && match hk_parsed(text@) {
            Some(doc) => gives(doc, loaded.0, loaded.1),
            None => reads(Seq::empty(), loaded.0) && loaded.1 matches Some(LoadProblem::Text(_)),
        },
{
    if !is_readable(text) {
        return None;
    }
    match hk_parse(text) {
        Ok(document) => Some(load_for(Some(document))),
        Err(reason) => {
            let (config, _) = load_for(None);
            Some((config, Some(LoadProblem::Text(reason))))
        },
    }
}

/// A document without references has one filled-in form, itself, and names nothing of the
/// environment: it is read as it stands.
pub proof fn law_plain_documents_are_read_as_they_stand(
    doc: Seq<HkEntry>,
    d: Seq<HkEntry>,
    c: Config,
)
    requires
        is_plain(HkNode::Section(doc)),
        document_filled_in(doc, d),
        reads(d, c),
    ensures
        d == doc,
        reads(doc, c),
        !names_environment(HkNode::Section(doc)),
{
    lemma_plain_stays(HkNode::Section(doc), HkNode::Section(d));
    lemma_plain_names_nothing(HkNode::Section(doc));
}

/// References can change texts only: every number, flag and count of a configuration is
/// read as it stands in the document, and so is a text without a `$`.
pub proof fn law_references_change_texts_only(
    doc: Seq<HkEntry>,
    d: Seq<HkEntry>,
    c: Config,
    e: Config,
)
    requires
        document_filled_in(doc, d),
        reads(doc, c),
        reads(d, e),
    ensures
        e.general == c.general,
        e.appearance.cursor_size == c.appearance.cursor_size,
        e.input.repeat_rate == c.input.repeat_rate,
        e.input.repeat_delay == c.input.repeat_delay,
        e.input.natural_scroll == c.input.natural_scroll,
        e.input.tap_to_click == c.input.tap_to_click,
        e.workspaces.count == c.workspaces.count,
        forall|name: Seq<char>, key: Seq<char>|
            #![trigger field(doc, name, key)]
            field(doc, name, key) matches Some(HkNode::Text(s)) && !s.contains('$') ==> field(
                d,
                name,
                key,
            ) == field(doc, name, key),
{
    assert forall|name: Seq<char>, key: Seq<char>|
        #![trigger field(doc, name, key)]
        match field(doc, name, key) {
            Some(v) => field(d, name, key) matches Some(w) && filled_in(v, w),
            None => field(d, name, key) is None,
        } by {
        lemma_filled_in_lookup(doc, d, name);
        match lookup(doc, name) {
            Some(HkNode::Section(s)) => {
                let t = lookup(d, name)->Some_0->Section_0;
                assert(document_filled_in(s, t));
                lemma_filled_in_lookup(s, t, key);
            },
            _ => {},
        }
    }
}

/// Whether two configurations say the same.
pub open spec fn same_settings(a: Config, b: Config) -> bool {
    &&& a.general == b.general
    &&& string_view(a.appearance.wallpaper) == string_view(b.appearance.wallpaper)
    &&& a.appearance.active_border_color@ == b.appearance.active_border_color@
    &&& a.appearance.inactive_border_color@ == b.appearance.inactive_border_color@
    &&& a.appearance.cursor_theme@ == b.appearance.cursor_theme@
    &&& a.appearance.cursor_size == b.appearance.cursor_size
    &&& a.input.keyboard_layout@ == b.input.keyboard_layout@
    &&& a.input.keyboard_variant@ == b.input.keyboard_variant@
    &&& a.input.repeat_rate == b.input.repeat_rate
    &&& a.input.repeat_delay == b.input.repeat_delay
    &&& a.input.natural_scroll == b.input.natural_scroll
    &&& a.input.tap_to_click == b.input.tap_to_click
    &&& hk_node(a.input.mouse_sensitivity) == hk_node(b.input.mouse_sensitivity)
    &&& a.workspaces.count == b.workspaces.count
    &&& string_views(a.workspaces.names@) == string_views(b.workspaces.names@)
    &&& assoc_map(a.keybindings@) == assoc_map(b.keybindings@)
    &&& string_views(a.autostart@) == string_views(b.autostart@)
}

proof fn lemma_list_reads_back(texts: Seq<Seq<char>>)
    ensures
        list_texts(texts.map_values(|t: Seq<char>| HkNode::Text(t))) == texts,
    decreases texts.len(),
{
    let items = texts.map_values(|t: Seq<char>| HkNode::Text(t));
    if texts.len() > 0 {
        lemma_list_reads_back(texts.drop_last());
        assert(items.drop_last() =~= texts.drop_last().map_values(
            |t: Seq<char>| HkNode::Text(t),
        ));
    }
    assert(list_texts(items) =~= texts);
}

proof fn lemma_overlaid(
    base: Map<Seq<char>, Seq<char>>,
    s: Seq<HkEntry>,
    k: Seq<(String, String)>,
)
    requires
        writes_keybindings(s, k),
    ensures
        overlaid(base, s) == base.union_prefer_right(assoc_map(k)),
    decreases s.len(),
{
    if s.len() > 0 {
        let a = s.drop_last();
        let b = k.drop_last();
        assert forall|i: int| 0 <= i < b.len() implies text_entry_is(
            #[trigger] a[i],
            b[i].0@,
            b[i].1@,
        ) by {
            assert(text_entry_is(s[i], k[i].0@, k[i].1@));
        }
        lemma_overlaid(base, a, b);
        assert(text_entry_is(s[s.len() - 1], k.last().0@, k.last().1@));
        assert(overlaid(base, s) =~= base.union_prefer_right(assoc_map(k)));
    } else {
        assert(overlaid(base, s) =~= base.union_prefer_right(assoc_map(k)));
    }
}

proof fn lemma_sections(doc: Seq<HkEntry>, c: Config)
    requires
        writes(doc, c),
    ensures
        section_of(doc, "general"@) == section_at(doc, 0, "general"@),
        section_of(doc, "appearance"@) == section_at(doc, 1, "appearance"@),
        section_of(doc, "input"@) == section_at(doc, 2, "input"@),
        section_of(doc, "workspaces"@) == section_at(doc, 3, "workspaces"@),
        section_of(doc, "keybindings"@) == section_at(doc, 4, "keybindings"@),
        section_of(doc, "autostart"@) == section_at(doc, 5, "autostart"@),
{
    lemma_section_names();
    lemma_lookup(doc, "general"@, 0);
    lemma_lookup(doc, "appearance"@, 1);
    lemma_lookup(doc, "input"@, 2);
    lemma_lookup(doc, "workspaces"@, 3);
    lemma_lookup(doc, "keybindings"@, 4);
    lemma_lookup(doc, "autostart"@, 5);
}

proof fn lemma_general_reads_back(s: Seq<HkEntry>, g: GeneralConfig)
    requires
        writes_general(s, g),
    ensures
        lookup(s, "gaps_px"@) == Some(s[0].value),
        lookup(s, "border_px"@) == Some(s[1].value),
        lookup(s, "focus_follows_mouse"@) == Some(s[2].value),
        lookup(s, "default_tiling"@) == Some(s[3].value),
{
    lemma_general_keys();
    lemma_lookup(s, "gaps_px"@, 0);
    lemma_lookup(s, "border_px"@, 1);
    lemma_lookup(s, "focus_follows_mouse"@, 2);
    lemma_lookup(s, "default_tiling"@, 3);
}

proof fn lemma_appearance_reads_back(s: Seq<HkEntry>, a: AppearanceConfig)
    requires
        writes_appearance(s, a),
    ensures
        text_opt(lookup(s, "wallpaper"@)) == string_view(a.wallpaper),
        text_opt(lookup(s, "active_border_color"@)) == Some(a.active_border_color@),
        text_opt(lookup(s, "inactive_border_color"@)) == Some(a.inactive_border_color@),
        text_opt(lookup(s, "cursor_theme"@)) == Some(a.cursor_theme@),
        u32_or(lookup(s, "cursor_size"@), 24) == a.cursor_size,
{
    lemma_appearance_keys();
    let n: int = if a.wallpaper is Some {
        1
    } else {
        0
    };
    if a.wallpaper is Some {
        lemma_lookup(s, "wallpaper"@, 0);
    } else {
        lemma_lookup(s, "wallpaper"@, 4);
    }
    lemma_lookup(s, "active_border_color"@, n);
    lemma_lookup(s, "inactive_border_color"@, n + 1);
    lemma_lookup(s, "cursor_theme"@, n + 2);
    lemma_lookup(s, "cursor_size"@, n + 3);
}

proof fn lemma_input_reads_back(s: Seq<HkEntry>, c: InputConfig)
    requires
        writes_input(s, c),
    ensures
        lookup(s, "keyboard_layout"@) == Some(s[0].value),
        lookup(s, "keyboard_variant"@) == Some(s[1].value),
        lookup(s, "repeat_rate"@) == Some(s[2].value),
        lookup(s, "repeat_delay"@) == Some(s[3].value),
        lookup(s, "natural_scroll"@) == Some(s[4].value),
        lookup(s, "tap_to_click"@) == Some(s[5].value),
        lookup(s, "mouse_sensitivity"@) == Some(s[6].value),
{
    lemma_input_keys();
    lemma_lookup(s, "keyboard_layout"@, 0);
    lemma_lookup(s, "keyboard_variant"@, 1);
    lemma_lookup(s, "repeat_rate"@, 2);
    lemma_lookup(s, "repeat_delay"@, 3);
    lemma_lookup(s, "natural_scroll"@, 4);
    lemma_lookup(s, "tap_to_click"@, 5);
    lemma_lookup(s, "mouse_sensitivity"@, 6);
}

proof fn lemma_workspaces_read_back(s: Seq<HkEntry>, w: WorkspacesConfig)
    requires
        writes_workspaces(s, w),
    ensures
        lookup(s, "count"@) == Some(s[0].value),
        lookup(s, "names"@) == Some(s[1].value),
        list_or(lookup(s, "names"@), Seq::empty()) == string_views(w.names@),
{
    lemma_workspaces_keys();
    lemma_lookup(s, "count"@, 0);
    lemma_lookup(s, "names"@, 1);
    lemma_list_reads_back(string_views(w.names@));
}

/// Reading back what was saved gives the same settings, provided that there is a
/// workspace and no more of them than a double can count, and that no default
/// keybinding was dropped: one that is missing from the document comes back as its
/// default.
pub proof fn law_saved_settings_read_back(doc: Seq<HkEntry>, c: Config, d: Config)
    requires
        writes(doc, c),
        reads(doc, d),
        1 <= c.workspaces.count <= 0x20_0000_0000_0000,
        c.well_formed(),
        default_table().dom().subset_of(assoc_map(c.keybindings@).dom()),
    ensures
        same_settings(c, d),
{
    lemma_sections(doc, c);
    let general = section_at(doc, 0, "general"@)->Some_0;
    let appearance = section_at(doc, 1, "appearance"@)->Some_0;
    let input = section_at(doc, 2, "input"@)->Some_0;
    let workspaces = section_at(doc, 3, "workspaces"@)->Some_0;
    let keys = section_at(doc, 4, "keybindings"@)->Some_0;
    let autostart = section_at(doc, 5, "autostart"@)->Some_0;
    lemma_general_reads_back(general, c.general);
    lemma_appearance_reads_back(appearance, c.appearance);
    lemma_input_reads_back(input, c.input);
    lemma_workspaces_read_back(workspaces, c.workspaces);
    lemma_overlaid(default_table(), keys, c.keybindings@);
    assert(default_table().union_prefer_right(assoc_map(c.keybindings@)) =~= assoc_map(
        c.keybindings@,
    ));
    lemma_lookup(autostart, "commands"@, 0);
    lemma_list_reads_back(string_views(c.autostart@));
}

/// Whether a field holds a number.
pub open spec fn is_number(v: Option<HkNode>) -> bool {
    v matches Some(HkNode::Number(_))
}

pub open spec fn is_flag(v: Option<HkNode>) -> bool {
    v matches Some(HkNode::Flag(_))
}

pub open spec fn is_list(v: Option<HkNode>) -> bool {
    v matches Some(HkNode::List(_))
}

/// A field that is missing from the document, or of the wrong kind, is read as it is
/// from an empty document, whatever the other fields are.
pub proof fn law_a_bad_field_falls_back(doc: Seq<HkEntry>, c: Config, d: Config)
    requires
        reads(doc, c),
        reads(Seq::empty(), d),
    ensures
        !is_number(field(doc, "general"@, "gaps_px"@)) ==> c.general.gaps_px == d.general.gaps_px,
        !is_number(field(doc, "general"@, "border_px"@)) ==> c.general.border_px
            == d.general.border_px,
        !is_flag(field(doc, "general"@, "focus_follows_mouse"@)) ==> c.general.focus_follows_mouse
            == d.general.focus_follows_mouse,
        !is_flag(field(doc, "general"@, "default_tiling"@)) ==> c.general.default_tiling
            == d.general.default_tiling,
        text_opt(field(doc, "appearance"@, "wallpaper"@)) is None ==> string_view(
            c.appearance.wallpaper,
        ) == string_view(d.appearance.wallpaper),
        text_opt(field(doc, "appearance"@, "active_border_color"@)) is None
            ==> c.appearance.active_border_color@ == d.appearance.active_border_color@,
        text_opt(field(doc, "appearance"@, "inactive_border_color"@)) is None
            ==> c.appearance.inactive_border_color@ == d.appearance.inactive_border_color@,
        text_opt(field(doc, "appearance"@, "cursor_theme"@)) is None ==> c.appearance.cursor_theme@
            == d.appearance.cursor_theme@,
        !is_number(field(doc, "appearance"@, "cursor_size"@)) ==> c.appearance.cursor_size
            == d.appearance.cursor_size,
        text_opt(field(doc, "input"@, "keyboard_layout"@)) is None ==> c.input.keyboard_layout@
            == d.input.keyboard_layout@,
        text_opt(field(doc, "input"@, "keyboard_variant"@)) is None ==> c.input.keyboard_variant@
            == d.input.keyboard_variant@,
        !is_number(field(doc, "input"@, "repeat_rate"@)) ==> c.input.repeat_rate
            == d.input.repeat_rate,
        !is_number(field(doc, "input"@, "repeat_delay"@)) ==> c.input.repeat_delay
            == d.input.repeat_delay,
        !is_flag(field(doc, "input"@, "natural_scroll"@)) ==> c.input.natural_scroll
            == d.input.natural_scroll,
        !is_flag(field(doc, "input"@, "tap_to_click"@)) ==> c.input.tap_to_click
            == d.input.tap_to_click,
        !is_number(field(doc, "input"@, "mouse_sensitivity"@)) ==> is_whole(
            hk_node(c.input.mouse_sensitivity),
            0,
        ),
        !is_number(field(doc, "workspaces"@, "count"@)) ==> c.workspaces.count
            == d.workspaces.count,
        !is_list(field(doc, "workspaces"@, "names"@)) ==> string_views(c.workspaces.names@)
            == string_views(d.workspaces.names@),
        section_of(doc, "keybindings"@) is None ==> assoc_map(c.keybindings@) == assoc_map(
            d.keybindings@,
        ),
        !is_list(field(doc, "autostart"@, "commands"@)) ==> string_views(c.autostart@)
            == string_views(d.autostart@),
{
}

} // verus!
