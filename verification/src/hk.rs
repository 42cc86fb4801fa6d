//! Configuration documents of the `hk_parser` crate: what they hold, and the calls
//! that read and build them.
use vstd::prelude::*;

use hk_parser::{HkConfig, HkError, HkValue};
use indexmap::IndexMap;

use crate::text::{
    chars_of, decimal, is_white_space_exec, slice_of, split, split_chars, trim, trim_chars,
    trim_start, views,
};

verus! {

/// A double as a document holds it, by what is read off it: the double cast to two
/// integer types, and its text.
pub struct HkNumber {
    pub to_u32: u32,
    pub to_usize: usize,
    pub text: Seq<char>,
}

/// A value of a document.
pub enum HkNode {
    Text(Seq<char>),
    Number(HkNumber),
    Flag(bool),
    List(Seq<HkNode>),
    Section(Seq<HkEntry>),
}

/// A value under its name.
pub struct HkEntry {
    pub key: Seq<char>,
    pub value: HkNode,
}

/// The value under a name; the first, should there be several.
pub open spec fn lookup(entries: Seq<HkEntry>, key: Seq<char>) -> Option<HkNode>
    decreases entries.len(),
{
    if entries.len() == 0 {
        None
    } else if entries[0].key == key {
        Some(entries[0].value)
    } else {
        lookup(entries.skip(1), key)
    }
}

pub open spec fn has_key(entries: Seq<HkEntry>, key: Seq<char>) -> bool {
    exists|i: int| 0 <= i < entries.len() && (#[trigger] entries[i]).key == key
}

/// The entries with `value` under `key`: in its old place, or behind the others.
pub open spec fn put(entries: Seq<HkEntry>, key: Seq<char>, value: HkNode) -> Seq<HkEntry>
    decreases entries.len(),
{
    if entries.len() == 0 {
        seq![HkEntry { key, value }]
    } else if entries[0].key == key {
        entries.update(0, HkEntry { key, value })
    } else {
        seq![entries[0]] + put(entries.skip(1), key, value)
    }
}

/// A new key goes behind the others.
pub proof fn lemma_put_new(entries: Seq<HkEntry>, key: Seq<char>, value: HkNode)
    requires
        !has_key(entries, key),
    ensures
        put(entries, key, value) == entries.push(HkEntry { key, value }),
    decreases entries.len(),
{
    if entries.len() > 0 {
        let rest = entries.skip(1);
        assert(entries[0].key != key);
        assert(!has_key(rest, key)) by {
            if has_key(rest, key) {
                let i = choose|i: int| 0 <= i < rest.len() && (#[trigger] rest[i]).key == key;
                assert(entries[i + 1].key == key);
            }
        }
        lemma_put_new(rest, key, value);
    }
    assert(put(entries, key, value) =~= entries.push(HkEntry { key, value }));
}

/// The text that a value can be read as; lists and sections have none.
pub open spec fn value_text(v: HkNode) -> Option<Seq<char>> {
    match v {
        HkNode::Text(s) => Some(s),
        HkNode::Number(n) => Some(n.text),
        HkNode::Flag(b) => Some(if b {
            "true"@
        } else {
            "false"@
        }),
        _ => None,
    }
}

/// Whether a value is the 32-bit number `n`.
pub open spec fn is_whole(v: HkNode, n: u32) -> bool {
    v matches HkNode::Number(x) && x.to_u32 == n && x.to_usize == n && x.text == decimal(n as nat)
}

/// Whether a value is a number that stands for the count `n`. A double holds counts
/// up to 2^53 exactly.
pub open spec fn is_count(v: HkNode, n: usize) -> bool {
    v matches HkNode::Number(x) && (n <= 0x20_0000_0000_0000 ==> x.to_usize == n)
}

/// Whether a value is a number with these readings.
pub open spec fn reads_as(v: HkNode, readings: (u32, usize)) -> bool {
    v matches HkNode::Number(x) && x.to_u32 == readings.0 && x.to_usize == readings.1
}

/// `indexmap::IndexMap`, of which a document and its sections are made.
#[verifier::external_type_specification]
#[verifier::external_body]
#[verifier::reject_recursive_types(K)]
#[verifier::reject_recursive_types(V)]
#[verifier::reject_recursive_types(S)]
pub struct ExIndexMap<K, V, S>(IndexMap<K, V, S>);

/// `hk_parser::HkValue`, a value of a document.
#[verifier::external_type_specification]
#[verifier::external_body]
pub struct ExHkValue(HkValue);

/// `hk_parser::HkError`, the reason why a text is no document, why a value cannot be read
/// as some type, or why a reference cannot be resolved.
#[verifier::external_type_specification]
#[verifier::external_body]
pub struct ExHkError(HkError);

/// What a document or a section holds, in order.
pub uninterp spec fn hk_doc(map: HkConfig) -> Seq<HkEntry>;

/// What a value holds.
pub uninterp spec fn hk_node(value: HkValue) -> HkNode;

/// `IndexMap::new` makes an empty map.
#[verifier::external_body]
pub(crate) fn hk_new() -> (r: HkConfig)
    ensures
        hk_doc(r) == Seq::<HkEntry>::empty(),
{
    IndexMap::new()
}

/// `IndexMap::get` finds the value under a key.
#[verifier::external_body]
pub(crate) fn hk_get<'a>(map: &'a HkConfig, key: &str) -> (r: Option<&'a HkValue>)
    ensures
        match r {
            Some(v) => lookup(hk_doc(*map), key@) == Some(hk_node(*v)),
            None => lookup(hk_doc(*map), key@) is None,
        },
{
    map.get(key)
}

/// `IndexMap::insert` puts a new key behind the others, and the value of a key that
/// is there in the place of the old one.
#[verifier::external_body]
pub(crate) fn hk_insert(map: &mut HkConfig, key: String, value: HkValue)
    ensures
        hk_doc(*final(map)) == put(hk_doc(*old(map)), key@, hk_node(value)),
{
    map.insert(key, value);
}

/// `IndexMap::len` counts the entries.
#[verifier::external_body]
pub(crate) fn hk_len(map: &HkConfig) -> (r: usize)
    ensures
        r == hk_doc(*map).len(),
{
    map.len()
}

/// `IndexMap::get_index` gives the entry at a place in the order.
#[verifier::external_body]
pub(crate) fn hk_entry(map: &HkConfig, index: usize) -> (r: Option<(&String, &HkValue)>)
    ensures
        match r {
            Some((k, v)) => index < hk_doc(*map).len() && hk_doc(*map)[index as int].key == k@
                && hk_doc(*map)[index as int].value == hk_node(*v),
            None => index >= hk_doc(*map).len(),
        },
{
    map.get_index(index)
}

/// What kind of value a document holds.
#[derive(Debug, Clone, Copy, PartialEq, Eq, Structural)]
pub enum HkKind {
    Text,
    Number,
    Flag,
    List,
    Section,
}

pub open spec fn kind_of(v: HkNode) -> HkKind {
    match v {
        HkNode::Text(_) => HkKind::Text,
        HkNode::Number(_) => HkKind::Number,
        HkNode::Flag(_) => HkKind::Flag,
        HkNode::List(_) => HkKind::List,
        HkNode::Section(_) => HkKind::Section,
    }
}

/// The variants of `HkValue`.
#[verifier::external_body]
pub(crate) fn hk_kind(v: &HkValue) -> (r: HkKind)
    ensures
        r == kind_of(hk_node(*v)),
{
    match v {
        HkValue::String(_) => HkKind::Text,
        HkValue::Number(_) => HkKind::Number,
        HkValue::Bool(_) => HkKind::Flag,
        HkValue::Array(_) => HkKind::List,
        HkValue::Map(_) => HkKind::Section,
    }
}

/// `HkValue::as_string` reads texts, numbers and flags as text. Of any other value it
/// would write out all that is in it, however deep; those are left out.
pub assume_specification[ HkValue::as_string ](v: &HkValue) -> (r: Result<String, HkError>)
    requires
        value_text(hk_node(*v)) is Some,
    ensures
        r is Ok,
        value_text(hk_node(*v)) == Some(r->Ok_0@),
;

/// `HkValue::as_bool` reads flags. Of any other value it would write out all that is in
/// it; those are left out, here and in the next ones.
pub assume_specification[ HkValue::as_bool ](v: &HkValue) -> (r: Result<bool, HkError>)
    requires
        hk_node(*v) is Flag,
    ensures
        r is Ok,
        hk_node(*v) == HkNode::Flag(r->Ok_0),
;

/// `HkValue::as_array` reads lists.
pub assume_specification[ HkValue::as_array ](v: &HkValue) -> (r: Result<&Vec<HkValue>, HkError>)
    requires
        hk_node(*v) is List,
    ensures
        r is Ok,
        hk_node(*v) == HkNode::List(nodes(r->Ok_0@)),
;

/// `HkValue::as_map` reads sections.
pub assume_specification[ HkValue::as_map ](v: &HkValue) -> (r: Result<
    &IndexMap<String, HkValue>,
    HkError,
>)
    requires
        hk_node(*v) is Section,
    ensures
        r is Ok,
        hk_node(*v) == HkNode::Section(hk_doc(*r->Ok_0)),
;

/// `HkValue::as_number` reads numbers. The double is handed on as its casts to two
/// integer types.
#[verifier::external_body]
pub(crate) fn hk_as_number(v: &HkValue) -> (r: Option<(u32, usize)>)
    requires
        hk_node(*v) is Number,
    ensures
        r is Some,
        reads_as(hk_node(*v), r->Some_0),
{
    v.as_number().ok().map(|n| (n as u32, n as usize))
}

/// `HkValue::clone` copies a number. Lists and sections, which it would follow to the
/// bottom, are left out.
#[verifier::external_body]
pub(crate) fn hk_copy(v: &HkValue) -> (r: HkValue)
    requires
        hk_node(*v) is Number,
    ensures
        hk_node(r) == hk_node(*v),
{
    v.clone()
}

/// What the values of a list hold.
pub open spec fn nodes(items: Seq<HkValue>) -> Seq<HkNode> {
    items.map_values(|x: HkValue| hk_node(x))
}

/// `HkValue::String`: a text.
#[verifier::external_body]
pub(crate) fn hk_text(s: String) -> (r: HkValue)
    ensures
        hk_node(r) == HkNode::Text(s@),
{
    HkValue::String(s)
}

/// `HkValue::Bool`: a flag.
#[verifier::external_body]
pub(crate) fn hk_flag(b: bool) -> (r: HkValue)
    ensures
        hk_node(r) == HkNode::Flag(b),
{
    HkValue::Bool(b)
}

/// `HkValue::Number` of a whole number. A double holds 32-bit numbers exactly.
#[verifier::external_body]
pub(crate) fn hk_whole(n: u32) -> (r: HkValue)
    ensures
        is_whole(hk_node(r), n),
{
    HkValue::Number(n.into())
}

/// `HkValue::Number` of a count. A double holds counts up to 2^53 exactly; of a
/// larger one only the kind of the value is stated.
#[verifier::external_body]
pub(crate) fn hk_count(n: usize) -> (r: HkValue)
    ensures
        is_count(hk_node(r), n),
{
    HkValue::Number(n.to_string().parse().unwrap())
}

/// `HkValue::Array`: a list.
#[verifier::external_body]
pub(crate) fn hk_list(items: Vec<HkValue>) -> (r: HkValue)
    ensures
        hk_node(r) == HkNode::List(nodes(items@)),
{
    HkValue::Array(items)
}

/// `HkValue::Map`: a section.
#[verifier::external_body]
pub(crate) fn hk_section(map: HkConfig) -> (r: HkValue)
    ensures
        hk_node(r) == HkNode::Section(hk_doc(map)),
{
    HkValue::Map(map)
}

/// What a text says as a document, or nothing where it is none.
pub uninterp spec fn hk_parsed(text: Seq<char>) -> Option<Seq<HkEntry>>;

/// The index of the first arrow `=>`, or the length.
pub open spec fn first_arrow(s: Seq<char>) -> nat
    decreases s.len(),
{
    if s.len() < 2 {
        s.len()
    } else if s[0] == '=' && s[1] == '>' {
        0
    } else {
        1 + first_arrow(s.skip(1))
    }
}

/// How often a character occurs in a text.
pub open spec fn occurrences(s: Seq<char>, c: char) -> nat
    decreases s.len(),
{
    if s.len() == 0 {
        0
    } else {
        occurrences(s.drop_last(), c) + if s.last() == c {
            1nat
        } else {
            0nat
        }
    }
}

/// Whether a line can hold a key: the first character that is no white space is a dash.
pub open spec fn is_key_line(line: Seq<char>) -> bool {
    trim_start(line).len() > 0 && trim_start(line)[0] == '-'
}

/// How many sections a line can open one in the other: its dashes say how deep its key
/// lies, and each dot in the key opens one more.
pub open spec fn levels(line: Seq<char>) -> nat {
    let key = line.take(first_arrow(line) as int);
    occurrences(key, '-') + occurrences(key, '.')
}

/// Whether the value of a key is a single quotation mark.
pub open spec fn is_lone_quote(line: Seq<char>) -> bool {
    let i = first_arrow(line) as int;
    i < line.len() && trim(line.skip(i + 2)) == seq!['"']
}

/// How many lists a line can leave open: as many brackets as it opens and does not close.
/// Where there are quotation marks none counts as closed, as it may stand between them.
pub open spec fn left_open(line: Seq<char>) -> nat {
    let open = occurrences(line, '[');
    let closed = occurrences(line, ']');
    if occurrences(line, '"') > 0 {
        open
    } else if closed < open {
        (open - closed) as nat
    } else {
        0
    }
}

/// How many lists the first `n` lines can leave open together.
pub open spec fn all_left_open(lines: Seq<Seq<char>>, n: nat) -> nat
    decreases n,
{
    if n == 0 {
        0
    } else {
        all_left_open(lines, (n - 1) as nat) + left_open(lines[n - 1])
    }
}

/// How many sections a line of a text may open one in the other.
pub const MOST_LEVELS: usize = 32;

/// How many lists a line may open, and how many all lines together may leave open.
pub const MOST_LISTS: usize = 512;

/// The length up to which the parser can count.
pub const LONGEST_TEXT: usize = 0x7FFF_FFFF;

/// Whether a line can be handed to the parser.
pub open spec fn readable_line(line: Seq<char>) -> bool {
    &&& is_key_line(line) ==> levels(line) <= MOST_LEVELS && !is_lone_quote(line)
    &&& occurrences(line, '[') <= MOST_LISTS
}

/// Whether a text can be handed to the parser: no key has a single quotation mark for its
/// value, and neither lists nor sections lie in one another out of all proportion.
pub open spec fn readable(text: Seq<char>) -> bool {
    let lines = split(text, '\n');
    &&& text.len() <= LONGEST_TEXT
    &&& forall|i: int| 0 <= i < lines.len() ==> readable_line(#[trigger] lines[i])
    &&& all_left_open(lines, lines.len()) <= MOST_LISTS
}

proof fn lemma_first_arrow_is(s: Seq<char>, n: int)
    requires
        0 <= n <= s.len(),
        n < s.len() ==> n + 1 < s.len() && s[n] == '=' && s[n + 1] == '>',
        forall|i: int| 0 <= i < n && i + 1 < s.len() ==> !(#[trigger] s[i] == '=' && s[i + 1] == '>'),
    ensures
        first_arrow(s) == n,
    decreases n,
{
    if n > 0 && s.len() >= 2 {
        let t = s.skip(1);
        assert(!(s[0] == '=' && s[1] == '>'));
        assert forall|i: int| 0 <= i < n - 1 && i + 1 < t.len() implies !(#[trigger] t[i] == '='
            && t[i + 1] == '>') by {
            assert(t[i] == s[i + 1] && t[i + 1] == s[i + 2]);
        }
        lemma_first_arrow_is(t, n - 1);
    }
}

fn find_arrow(v: &Vec<char>) -> (r: usize)
    ensures
        r == first_arrow(v@),
        r <= v.len(),
        r < v.len() ==> r + 1 < v.len(),
{
    let mut i: usize = 0;
    while i < v.len() && v.len() - i >= 2
        invariant
            i <= v.len(),
            forall|k: int|
                0 <= k < i && k + 1 < v.len() ==> !(#[trigger] v@[k] == '=' && v@[k + 1] == '>'),
        decreases v.len() - i,
    {
        if v[i] == '=' && v[i + 1] == '>' {
            proof {
                lemma_first_arrow_is(v@, i as int);
            }
            return i;
        }
        i = i + 1;
    }
    proof {
        lemma_first_arrow_is(v@, v.len() as int);
    }
    v.len()
}

fn count_char(v: &Vec<char>, c: char) -> (r: usize)
    ensures
        r == occurrences(v@, c),
        r <= v.len(),
{
    let mut count: usize = 0;
    let mut i: usize = 0;
    assert(v@.take(0) =~= Seq::empty());
    while i < v.len()
        invariant
            i <= v.len(),
            count <= i,
            count == occurrences(v@.take(i as int), c),
        decreases v.len() - i,
    {
        proof {
            assert(v@.take(i + 1).drop_last() =~= v@.take(i as int));
            assert(v@.take(i + 1).last() == v@[i as int]);
        }
        if v[i] == c {
            count = count + 1;
        }
        i = i + 1;
    }
    assert(v@.take(v.len() as int) =~= v@);
    count
}

fn is_readable_line(line: &Vec<char>) -> (r: bool)
    ensures
        r == readable_line(line@),
{
    let mut start: usize = 0;
    assert(line@.skip(0) =~= line@);
    while start < line.len() && is_white_space_exec(line[start])
        invariant
            start <= line.len(),
            trim_start(line@) == trim_start(line@.skip(start as int)),
        decreases line.len() - start,
    {
        assert(line@.skip(start as int).skip(1) =~= line@.skip(start + 1));
        start = start + 1;
    }
    let key_line: bool = start < line.len() && line[start] == '-';
    proof {
        let rest = line@.skip(start as int);
        assert(trim_start(rest) == rest);
        assert(start < line.len() ==> rest[0] == line@[start as int]);
    }
    if key_line {
        let arrow: usize = find_arrow(line);
        let key = slice_of(line, 0, arrow);
        assert(key@ =~= line@.take(arrow as int));
        let dashes: usize = count_char(&key, '-');
        let dots: usize = count_char(&key, '.');
        if dashes > MOST_LEVELS || dots > MOST_LEVELS - dashes {
            return false;
        }
        if arrow < line.len() {
            let rest = slice_of(line, arrow + 2, line.len());
            assert(rest@ =~= line@.skip(arrow + 2));
            let value = trim_chars(&rest);
            if value.len() == 1 && value[0] == '"' {
                assert(value@ =~= seq!['"']);
                return false;
            }
            assert(value@ != seq!['"']) by {
                assert(seq!['"'].len() == 1 && seq!['"'][0] == '"');
            }
        }
    }
    count_char(line, '[') <= MOST_LISTS
}

fn lists_left_open(line: &Vec<char>) -> (r: usize)
    ensures
        r == left_open(line@),
{
    let open: usize = count_char(line, '[');
    let closed: usize = count_char(line, ']');
    if count_char(line, '"') > 0 {
        open
    } else if closed < open {
        open - closed
    } else {
        0
    }
}

proof fn lemma_left_open_grows(lines: Seq<Seq<char>>, n: nat, m: nat)
    requires
        n <= m,
    ensures
        all_left_open(lines, n) <= all_left_open(lines, m),
    decreases m - n,
{
    if n < m {
        lemma_left_open_grows(lines, n, (m - 1) as nat);
    }
}

pub fn is_readable(text: &str) -> (r: bool)
    ensures
        r == readable(text@),
{
    let all = chars_of(text);
    if all.len() > LONGEST_TEXT {
        return false;
    }
    let list = split_chars(&all, '\n');
    let ghost lines = split(text@, '\n');
    assert(views(list@) == lines);
    let mut open: usize = 0;
    let mut i: usize = 0;
    while i < list.len()
        invariant
            i <= list.len(),
            lines == split(text@, '\n'),
            views(list@) == lines,
            open == all_left_open(lines, i as nat),
            open <= MOST_LISTS,
            forall|k: int| 0 <= k < i ==> readable_line(#[trigger] lines[k]),
        decreases list.len() - i,
    {
        assert(lines[i as int] == list@[i as int]@);
        if !is_readable_line(&list[i]) {
            assert(!readable_line(lines[i as int]));
            return false;
        }
        let more: usize = lists_left_open(&list[i]);
        assert(all_left_open(lines, (i + 1) as nat) == open + more);
        if more > MOST_LISTS - open {
            proof {
                lemma_left_open_grows(lines, (i + 1) as nat, lines.len());
            }
            return false;
        }
        open = open + more;
        i = i + 1;
    }
    true
}

/// `hk_parser::parse_hk` reads a document from a text, or gives the reason why the text is
/// none; nothing but the text decides. It panics where the value of a key is a single
/// quotation mark. It calls itself for every list in a list and section in a section, and
/// sections in one another, which dots in a key make too, are torn down in the same way, so
/// that texts with too many of them are left out. Not stated: which document a text says.
#[verifier::external_body]
pub(crate) fn hk_parse(text: &str) -> (r: Result<HkConfig, HkError>)
    requires
        readable(text@),
    ensures
        match r {
            Ok(doc) => hk_parsed(text@) == Some(hk_doc(doc)),
            Err(_) => hk_parsed(text@) is None,
        },
{
    hk_parser::parse_hk(text)
}

/// Whether `b` is what references make of `a`: texts may change where they hold a `$`,
/// and nothing else does.
pub open spec fn filled_in(a: HkNode, b: HkNode) -> bool
    decreases a,
{
    match a {
        HkNode::Text(s) => b matches HkNode::Text(t) && (!s.contains('$') ==> t == s),
        HkNode::Number(_) | HkNode::Flag(_) => b == a,
        HkNode::List(s) => b matches HkNode::List(t) && s.len() == t.len() && forall|i: int|
            0 <= i < s.len() ==> filled_in(#[trigger] s[i], t[i]),
        HkNode::Section(s) => b matches HkNode::Section(t) && s.len() == t.len() && forall|i: int|
            0 <= i < s.len() ==> (#[trigger] s[i]).key == t[i].key && filled_in(
                s[i].value,
                t[i].value,
            ),
    }
}

/// The same of the entries of a document.
pub open spec fn document_filled_in(a: Seq<HkEntry>, b: Seq<HkEntry>) -> bool {
    filled_in(HkNode::Section(a), HkNode::Section(b))
}

/// Whether a reference `${..}` to a variable of the environment may begin at an index.
pub open spec fn environment_at(s: Seq<char>, i: int) -> bool {
    &&& i + 6 <= s.len()
    &&& s[i] == '$' && s[i + 1] == '{'
    &&& s[i + 2] == 'e' && s[i + 3] == 'n' && s[i + 4] == 'v' && s[i + 5] == ':'
}

/// Whether a reference to another value of the document may begin at an index.
pub open spec fn reference_at(s: Seq<char>, i: int) -> bool {
    i + 2 <= s.len() && s[i] == '$' && s[i + 1] == '{' && !environment_at(s, i)
}

/// How many references to other values begin before index `n`.
pub open spec fn references_before(s: Seq<char>, n: nat) -> nat
    decreases n,
{
    if n == 0 {
        0
    } else {
        references_before(s, (n - 1) as nat) + if reference_at(s, n - 1) {
            1nat
        } else {
            0nat
        }
    }
}

/// How many references a text holds; of forks only those count that share a text with
/// another.
pub open spec fn references_in(s: Seq<char>, forks: bool) -> nat {
    let n = references_before(s, s.len());
    if forks && n < 2 {
        0
    } else {
        n
    }
}

/// How many references, or forks, a value holds.
pub open spec fn references(v: HkNode, forks: bool) -> nat
    decreases v, 0nat,
{
    match v {
        HkNode::Text(s) => references_in(s, forks),
        HkNode::Number(_) | HkNode::Flag(_) => 0,
        HkNode::List(s) => list_references(s, forks, s.len()),
        HkNode::Section(s) => section_references(s, forks, s.len()),
    }
}

pub open spec fn list_references(s: Seq<HkNode>, forks: bool, n: nat) -> nat
    decreases s, n,
{
    if n == 0 || n > s.len() {
        0
    } else {
        list_references(s, forks, (n - 1) as nat) + references(s[n - 1], forks)
    }
}

pub open spec fn section_references(s: Seq<HkEntry>, forks: bool, n: nat) -> nat
    decreases s, n,
{
    if n == 0 || n > s.len() {
        0
    } else {
        section_references(s, forks, (n - 1) as nat) + references(s[n - 1].value, forks)
    }
}

/// Whether lists and sections lie in one another at most `levels` deep.
pub open spec fn within(v: HkNode, levels: nat) -> bool
    decreases levels,
{
    match v {
        HkNode::Text(_) | HkNode::Number(_) | HkNode::Flag(_) => true,
        HkNode::List(s) => levels > 0 && forall|i: int|
            0 <= i < s.len() ==> within(#[trigger] s[i], (levels - 1) as nat),
        HkNode::Section(s) => levels > 0 && forall|i: int|
            0 <= i < s.len() ==> within((#[trigger] s[i]).value, (levels - 1) as nat),
    }
}

/// Whether a value holds a reference to the environment.
pub open spec fn names_environment(v: HkNode) -> bool
    decreases v,
{
    match v {
        HkNode::Text(s) => exists|i: int| 0 <= i < s.len() && #[trigger] environment_at(s, i),
        HkNode::Number(_) | HkNode::Flag(_) => false,
        HkNode::List(s) => exists|i: int| 0 <= i < s.len() && names_environment(#[trigger] s[i]),
        HkNode::Section(s) => exists|i: int|
            0 <= i < s.len() && names_environment((#[trigger] s[i]).value),
    }
}

/// Whether a value holds no reference at all.
pub open spec fn is_plain(v: HkNode) -> bool
    decreases v,
{
    match v {
        HkNode::Text(s) => !s.contains('$'),
        HkNode::Number(_) | HkNode::Flag(_) => true,
        HkNode::List(s) => forall|i: int| 0 <= i < s.len() ==> is_plain(#[trigger] s[i]),
        HkNode::Section(s) => forall|i: int|
            0 <= i < s.len() ==> is_plain((#[trigger] s[i]).value),
    }
}

/// How deep a document may be, and how many references and forks it may hold, for its
/// references to be resolved.
pub const MOST_NESTED: usize = 16;

pub const MOST_REFERENCES: usize = 128;

pub const MOST_FORKS: usize = 16;

/// Whether the references of a document can be resolved without going deep or long: every
/// reference leads on to those of the text that it names, and each fork doubles the way.
pub open spec fn resolvable(doc: Seq<HkEntry>) -> bool {
    &&& within(HkNode::Section(doc), MOST_NESTED as nat)
    &&& references(HkNode::Section(doc), false) <= MOST_REFERENCES
    &&& references(HkNode::Section(doc), true) <= MOST_FORKS
}

proof fn lemma_within_item(s: Seq<HkNode>, levels: nat, i: int)
    requires
        within(HkNode::List(s), levels),
        0 <= i < s.len(),
    ensures
        levels > 0,
        within(s[i], (levels - 1) as nat),
{
    let v = HkNode::List(s);
    assert(v->List_0 == s);
}

fn value_within(v: &HkValue, levels: usize) -> (r: bool)
    ensures
        r == within(hk_node(*v), levels as nat),
    decreases levels, 1nat,
{
    match hk_kind(v) {
        HkKind::Text | HkKind::Number | HkKind::Flag => true,
        HkKind::List => match v.as_array() {
            Ok(items) => levels > 0 && list_within(items, levels),
            Err(_) => false,
        },
        HkKind::Section => match v.as_map() {
            Ok(m) => levels > 0 && section_within(m, levels),
            Err(_) => false,
        },
    }
}

fn list_within(items: &Vec<HkValue>, levels: usize) -> (r: bool)
    requires
        levels > 0,
    ensures
        r == within(HkNode::List(nodes(items@)), levels as nat),
    decreases levels, 0nat,
{
    let ghost all = nodes(items@);
    let mut i: usize = 0;
    while i < items.len()
        invariant
            i <= items.len(),
            levels > 0,
            all == nodes(items@),
            forall|k: int| 0 <= k < i ==> within(#[trigger] all[k], (levels - 1) as nat),
        decreases items.len() - i,
    {
        assert(all[i as int] == hk_node(items@[i as int]));
        if !value_within(&items[i], levels - 1) {
            proof {
                if within(HkNode::List(all), levels as nat) {
                    lemma_within_item(all, levels as nat, i as int);
                }
            }
            return false;
        }
        i = i + 1;
    }
    true
}

fn section_within(m: &HkConfig, levels: usize) -> (r: bool)
    requires
        levels > 0,
    ensures
        r == within(HkNode::Section(hk_doc(*m)), levels as nat),
    decreases levels, 0nat,
{
    let n: usize = hk_len(m);
    let ghost all = hk_doc(*m);
    let mut i: usize = 0;
    while i < n
        invariant
            i <= n,
            n == all.len(),
            levels > 0,
            all == hk_doc(*m),
            forall|k: int| 0 <= k < i ==> within((#[trigger] all[k]).value, (levels - 1) as nat),
        decreases n - i,
    {
        if let Some((_, v)) = hk_entry(m, i) {
            if !value_within(v, levels - 1) {
                assert(!within(all[i as int].value, (levels - 1) as nat));
                return false;
            }
        }
        i = i + 1;
    }
    true
}

/// Up to which number references are counted.
pub const COUNTED: usize = 0x1_0000;

pub open spec fn counted(n: nat) -> nat {
    if n < COUNTED {
        n
    } else {
        COUNTED as nat
    }
}

fn count_more(a: usize, b: usize) -> (r: usize)
    requires
        a <= COUNTED,
        b <= COUNTED,
    ensures
        r == counted((a + b) as nat),
{
    let sum: usize = a + b;
    if sum < COUNTED {
        sum
    } else {
        COUNTED
    }
}

fn count_in_text(text: &String, forks: bool) -> (r: usize)
    ensures
        r == counted(references_in(text@, forks)),
{
    let v = chars_of(text.as_str());
    let mut n: usize = 0;
    let mut i: usize = 0;
    while i < v.len()
        invariant
            i <= v.len(),
            n == counted(references_before(v@, i as nat)),
        decreases v.len() - i,
    {
        let left: usize = v.len() - i;
        let environment: bool = left >= 6 && v[i] == '$' && v[i + 1] == '{' && v[i + 2] == 'e'
            && v[i + 3] == 'n' && v[i + 4] == 'v' && v[i + 5] == ':';
        assert(environment == environment_at(v@, i as int));
        if left >= 2 && v[i] == '$' && v[i + 1] == '{' && !environment {
            n = count_more(n, 1);
        }
        i = i + 1;
    }
    if forks && n < 2 {
        0
    } else {
        n
    }
}

fn count_in_value(v: &HkValue, forks: bool, levels: usize) -> (r: usize)
    requires
        within(hk_node(*v), levels as nat),
    ensures
        r == counted(references(hk_node(*v), forks)),
    decreases levels, 1nat,
{
    match hk_kind(v) {
        HkKind::Text => match v.as_string() {
            Ok(text) => count_in_text(&text, forks),
            Err(_) => 0,
        },
        HkKind::Number | HkKind::Flag => 0,
        HkKind::List => match v.as_array() {
            Ok(items) => count_in_list(items, forks, levels),
            Err(_) => 0,
        },
        HkKind::Section => match v.as_map() {
            Ok(m) => count_in_section(m, forks, levels),
            Err(_) => 0,
        },
    }
}

fn count_in_list(items: &Vec<HkValue>, forks: bool, levels: usize) -> (r: usize)
    requires
        within(HkNode::List(nodes(items@)), levels as nat),
    ensures
        r == counted(references(HkNode::List(nodes(items@)), forks)),
    decreases levels, 0nat,
{
    let ghost all = nodes(items@);
    let mut n: usize = 0;
    let mut i: usize = 0;
    while i < items.len()
        invariant
            i <= items.len(),
            all == nodes(items@),
            within(HkNode::List(all), levels as nat),
            n == counted(list_references(all, forks, i as nat)),
        decreases items.len() - i,
    {
        assert(all[i as int] == hk_node(items@[i as int]));
        proof {
            lemma_within_item(all, levels as nat, i as int);
        }
        n = count_more(n, count_in_value(&items[i], forks, levels - 1));
        i = i + 1;
    }
    n
}

fn count_in_section(m: &HkConfig, forks: bool, levels: usize) -> (r: usize)
    requires
        within(HkNode::Section(hk_doc(*m)), levels as nat),
    ensures
        r == counted(references(HkNode::Section(hk_doc(*m)), forks)),
    decreases levels, 0nat,
{
    let count: usize = hk_len(m);
    let ghost all = hk_doc(*m);
    let mut n: usize = 0;
    let mut i: usize = 0;
    while i < count
        invariant
            i <= count,
            count == all.len(),
            all == hk_doc(*m),
            within(HkNode::Section(all), levels as nat),
            n == counted(section_references(all, forks, i as nat)),
        decreases count - i,
    {
        if let Some((_, v)) = hk_entry(m, i) {
            assert(within(all[i as int].value, (levels - 1) as nat));
            n = count_more(n, count_in_value(v, forks, levels - 1));
        }
        i = i + 1;
    }
    n
}

pub fn is_resolvable(doc: &HkConfig) -> (r: bool)
    ensures
        r == resolvable(hk_doc(*doc)),
{
    section_within(doc, MOST_NESTED) && count_in_section(doc, false, MOST_NESTED)
        <= MOST_REFERENCES && count_in_section(doc, true, MOST_NESTED) <= MOST_FORKS
}

/// What resolving the references makes of a document, and whether all could be resolved.
pub uninterp spec fn hk_resolved(doc: Seq<HkEntry>) -> (Seq<HkEntry>, bool);

/// `hk_parser::resolve_interpolations` puts what they refer to in the place of the
/// references `${..}` in the texts of a document, and leaves the rest as it is. Where a
/// reference can not be resolved it stops, with the texts up to there replaced; without
/// references there is nothing to stop at. Unless a reference names a variable of the
/// environment, the document alone decides. It calls itself for every list, section and
/// reference on its way, and resolves what is referred to twice two times, so that
/// documents with too much of these are left out. Not stated: what a reference is replaced
/// by.
#[verifier::external_body]
pub(crate) fn hk_resolve(map: &mut HkConfig) -> (r: Result<(), HkError>)
    requires
        resolvable(hk_doc(*old(map))),
    ensures
        document_filled_in(hk_doc(*old(map)), hk_doc(*final(map))),
        !names_environment(HkNode::Section(hk_doc(*old(map)))) ==> (
            hk_doc(*final(map)),
            r is Ok,
        ) == hk_resolved(hk_doc(*old(map))),
        is_plain(HkNode::Section(hk_doc(*old(map)))) ==> r is Ok,
{
    hk_parser::resolve_interpolations(map)
}

/// A value without references is not changed by resolving them.
pub proof fn lemma_plain_stays(a: HkNode, b: HkNode)
    requires
        filled_in(a, b),
        is_plain(a),
    ensures
        a == b,
    decreases a,
{
    match a {
        HkNode::List(s) => {
            let t = b->List_0;
            assert forall|i: int| 0 <= i < s.len() implies #[trigger] s[i] == t[i] by {
                lemma_plain_stays(s[i], t[i]);
            }
            assert(s =~= t);
        },
        HkNode::Section(s) => {
            let t = b->Section_0;
            assert forall|i: int| 0 <= i < s.len() implies #[trigger] s[i] == t[i] by {
                lemma_plain_stays(s[i].value, t[i].value);
            }
            assert(s =~= t);
        },
        _ => {},
    }
}

/// A value without references names nothing of the environment.
pub proof fn lemma_plain_names_nothing(v: HkNode)
    requires
        is_plain(v),
    ensures
        !names_environment(v),
    decreases v,
{
    match v {
        HkNode::Text(s) => {
            if exists|i: int| 0 <= i < s.len() && #[trigger] environment_at(s, i) {
                let i = choose|i: int| 0 <= i < s.len() && #[trigger] environment_at(s, i);
                assert(s[i] == '$');
            }
        },
        HkNode::List(s) => {
            assert forall|i: int| 0 <= i < s.len() implies !names_environment(#[trigger] s[i]) by {
                lemma_plain_names_nothing(s[i]);
            }
        },
        HkNode::Section(s) => {
            assert forall|i: int| 0 <= i < s.len() implies !names_environment(
                (#[trigger] s[i]).value,
            ) by {
                lemma_plain_names_nothing(s[i].value);
            }
        },
        _ => {},
    }
}

/// References change no key, and what is found under one is what they made of it.
pub proof fn lemma_filled_in_lookup(a: Seq<HkEntry>, b: Seq<HkEntry>, key: Seq<char>)
    requires
        document_filled_in(a, b),
    ensures
        match lookup(a, key) {
            Some(v) => lookup(b, key) matches Some(w) && filled_in(v, w),
            None => lookup(b, key) is None,
        },
    decreases a.len(),
{
    if a.len() > 0 {
        assert(a[0].key == b[0].key && filled_in(a[0].value, b[0].value));
        if a[0].key != key {
            let (s, t) = (a.skip(1), b.skip(1));
            assert forall|i: int| 0 <= i < s.len() implies (#[trigger] s[i]).key == t[i].key
                && filled_in(s[i].value, t[i].value) by {
                assert(s[i] == a[i + 1]);
            }
            lemma_filled_in_lookup(s, t, key);
        }
    }
}

pub proof fn lemma_lookup(entries: Seq<HkEntry>, key: Seq<char>, i: int)
    requires
        0 <= i <= entries.len(),
        forall|k: int| 0 <= k < i ==> (#[trigger] entries[k]).key != key,
    ensures
        i < entries.len() && entries[i].key == key ==> lookup(entries, key) == Some(
            entries[i].value,
        ),
        i == entries.len() ==> lookup(entries, key) is None,
    decreases i,
{
    if i > 0 {
        let rest = entries.skip(1);
        assert(entries[0].key != key);
        assert forall|k: int| 0 <= k < i - 1 implies (#[trigger] rest[k]).key != key by {
            assert(rest[k] == entries[k + 1]);
        }
        lemma_lookup(rest, key, i - 1);
    }
}

} // verus!
