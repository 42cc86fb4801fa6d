//! Which output is driven by which part of the graphics hardware, in which mode and at
//! which place.
use vstd::prelude::*;

use crate::geometry::{sat, sat_i64, Point};
use crate::text::{
    chars_of, decimal, decimal_text, is_digit, join2, join3, parse_number, parsed_number, slice_of,
    string_of, text_eq,
};

verus! {

/// A mode that a monitor offers.
#[derive(Debug, Clone, Copy, PartialEq, Eq, Structural)]
pub struct DrmMode {
    pub width: u16,
    pub height: u16,
    pub vrefresh: u32,
    pub preferred: bool,
}

/// A mode of an output; the refresh rate is in thousandths of a hertz.
#[derive(Debug, Clone, Copy, PartialEq, Eq, Structural)]
pub struct OutputMode {
    pub w: i32,
    pub h: i32,
    pub refresh: i32,
}

pub open spec fn mode_of(m: DrmMode) -> OutputMode {
    OutputMode {
        w: m.width as i32,
        h: m.height as i32,
        refresh: sat(m.vrefresh * 1000) as i32,
    }
}

pub fn output_mode(m: &DrmMode) -> (r: OutputMode)
    ensures
        r == mode_of(*m),
{
    OutputMode {
        w: m.width as i32,
        h: m.height as i32,
        refresh: sat_i64(m.vrefresh as i64 * 1000),
    }
}

/// The first of some numbers that is not used.
pub open spec fn first_free(s: Seq<u32>, used: Seq<u32>) -> Option<u32>
    decreases s.len(),
{
    if s.len() == 0 {
        None
    } else if !used.contains(s[0]) {
        Some(s[0])
    } else {
        first_free(s.skip(1), used)
    }
}

/// The lists one after the other.
pub open spec fn flat(v: Seq<Vec<u32>>) -> Seq<u32>
    decreases v.len(),
{
    if v.len() == 0 {
        Seq::empty()
    } else {
        flat(v.drop_last()) + v.last()@
    }
}

fn holds(v: &Vec<u32>, x: u32) -> (r: bool)
    ensures
        r == v@.contains(x),
{
    let mut i: usize = 0;
    while i < v.len()
        invariant
            i <= v.len(),
            forall|k: int| 0 <= k < i ==> v@[k] != x,
        decreases v.len() - i,
    {
        if v[i] == x {
            assert(v@[i as int] == x);
            return true;
        }
        i = i + 1;
    }
    false
}

pub fn find_free_crtc(v: &Vec<u32>, used: &Vec<u32>) -> (r: Option<u32>)
    ensures
        r == first_free(v@, used@),
{
    let mut i: usize = 0;
    assert(v@.skip(0) =~= v@);
    while i < v.len()
        invariant
            i <= v.len(),
            first_free(v@, used@) == first_free(v@.skip(i as int), used@),
        decreases v.len() - i,
    {
        assert(v@.skip(i as int)[0] == v@[i as int]);
        assert(v@.skip(i as int).skip(1) =~= v@.skip(i + 1));
        if !holds(used, v[i]) {
            return Some(v[i]);
        }
        i = i + 1;
    }
    None
}

pub fn flatten_crtcs(v: &Vec<Vec<u32>>) -> (r: Vec<u32>)
    ensures
        r@ == flat(v@),
{
    let mut out: Vec<u32> = Vec::new();
    let mut i: usize = 0;
    assert(v@.take(0) =~= Seq::empty());
    while i < v.len()
        invariant
            i <= v.len(),
            out@ == flat(v@.take(i as int)),
        decreases v.len() - i,
    {
        let ghost start = out@;
        let mut k: usize = 0;
        while k < v[i].len()
            invariant
                i < v.len(),
                k <= v@[i as int].len(),
                out@ == start + v@[i as int]@.take(k as int),
            decreases v@[i as int].len() - k,
        {
            out.push(v[i][k]);
            k = k + 1;
            assert(out@ =~= start + v@[i as int]@.take(k as int));
        }
        assert(v@[i as int]@.take(k as int) =~= v@[i as int]@);
        assert(v@.take(i + 1).drop_last() =~= v@.take(i as int));
        assert(v@.take(i + 1).last() == v@[i as int]);
        i = i + 1;
    }
    assert(v@.take(v.len() as int) =~= v@);
    out
}

/// The scanout engine for a connector: the one it has, if that is free, or the first
/// free one that an encoder of its can drive.
pub open spec fn engine_for(
    current: Option<u32>,
    encoders: Seq<Vec<u32>>,
    used: Seq<u32>,
) -> Option<u32> {
    match current {
        Some(c) => if !used.contains(c) {
            Some(c)
        } else {
            first_free(flat(encoders), used)
        },
        None => first_free(flat(encoders), used),
    }
}

pub fn find_crtc_for_connector(
    current: Option<u32>,
    encoders: &Vec<Vec<u32>>,
    used: &Vec<u32>,
) -> (r: Option<u32>)
    ensures
        r == engine_for(current, encoders@, used@),
{
    if let Some(c) = current {
        if !holds(used, c) {
            return Some(c);
        }
    }
    let all = flatten_crtcs(encoders);
    find_free_crtc(&all, used)
}

/// Whether a connector can be lit up at all.
pub fn can_light_up(connected: bool, modes: &Vec<DrmMode>) -> (r: bool)
    ensures
        r == (connected && modes@.len() > 0),
{
    connected && modes.len() > 0
}

/// The index of the first preferred mode, or zero without one.
pub open spec fn preferred(modes: Seq<DrmMode>) -> int
    decreases modes.len(),
{
    if modes.len() == 0 || modes[0].preferred {
        0
    } else {
        let rest = preferred(modes.skip(1));
        if rest < modes.len() - 1 && modes.skip(1)[rest].preferred {
            rest + 1
        } else {
            0
        }
    }
}

proof fn lemma_preferred(modes: Seq<DrmMode>, i: int)
    requires
        0 <= i <= modes.len(),
        forall|k: int| 0 <= k < i ==> !(#[trigger] modes[k]).preferred,
        i < modes.len() ==> modes[i].preferred,
    ensures
        preferred(modes) == (if i < modes.len() {
            i
        } else {
            0
        }),
    decreases modes.len(),
{
    if modes.len() > 0 && i > 0 {
        assert(!modes[0].preferred);
        let t = modes.skip(1);
        assert forall|k: int| 0 <= k < i - 1 implies !(#[trigger] t[k]).preferred by {
            assert(t[k] == modes[k + 1]);
        }
        lemma_preferred(t, i - 1);
        if i == modes.len() && t.len() > 0 {
            assert(t[0] == modes[1]);
        }
    }
}

/// The index of the mode for a connector: the first preferred one, or the first.
pub fn preferred_mode(modes: &Vec<DrmMode>) -> (r: usize)
    requires
        modes.len() > 0,
    ensures
        r == preferred(modes@),
        r < modes.len(),
{
    let mut i: usize = 0;
    while i < modes.len()
        invariant
            i <= modes.len(),
            forall|k: int| 0 <= k < i ==> !(#[trigger] modes@[k]).preferred,
        decreases modes.len() - i,
    {
        if modes[i].preferred {
            proof {
                lemma_preferred(modes@, i as int);
            }
            return i;
        }
        i = i + 1;
    }
    proof {
        lemma_preferred(modes@, modes.len() as int);
    }
    0
}

/// The first `n` widths together.
pub open spec fn total_width(widths: Seq<i32>, n: nat) -> int
    decreases n,
{
    if n == 0 {
        0
    } else {
        total_width(widths, (n - 1) as nat) + widths[n - 1]
    }
}

proof fn lemma_total_width(widths: Seq<i32>, n: nat)
    requires
        n <= widths.len(),
    ensures
        -(0x8000_0000 * n) <= total_width(widths, n) <= 0x8000_0000 * n,
    decreases n,
{
    if n > 0 {
        lemma_total_width(widths, (n - 1) as nat);
    }
}

/// Where a new output goes: to the place that the configuration gives it, or to the
/// right of the others, given the widths of their modes.
pub fn output_position(configured: Option<Point>, widths: &Vec<i32>) -> (r: Point)
    ensures
        match configured {
            Some(p) => r == p,
            None => r.x == sat(total_width(widths@, widths@.len())) && r.y == 0,
        },
{
    if let Some(p) = configured {
        return p;
    }
    let mut sum: i128 = 0;
    let mut i: usize = 0;
    while i < widths.len()
        invariant
            i <= widths.len(),
            sum == total_width(widths@, i as nat),
        decreases widths.len() - i,
    {
        proof {
            lemma_total_width(widths@, i as nat);
        }
        sum = sum + widths[i] as i128;
        i = i + 1;
    }
    Point { x: crate::geometry::sat_i128(sum), y: 0 }
}

/// How an output is turned, and whether it is mirrored.
#[derive(Debug, Clone, Copy, PartialEq, Eq, Structural)]
pub enum Transform {
    Normal,
    _90,
    _180,
    _270,
    Flipped,
    Flipped90,
    Flipped180,
    Flipped270,
}

/// The name of a transform.
pub open spec fn transform_name(t: Transform) -> Seq<char> {
    match t {
        Transform::Normal => "normal"@,
        Transform::_90 => "90"@,
        Transform::_180 => "180"@,
        Transform::_270 => "270"@,
        Transform::Flipped => "flipped"@,
        Transform::Flipped90 => "flipped-90"@,
        Transform::Flipped180 => "flipped-180"@,
        Transform::Flipped270 => "flipped-270"@,
    }
}

/// The transform of a name; an output is not turned by a name that is none.
pub open spec fn transform_named(name: Seq<char>) -> Transform {
    if name == "90"@ {
        Transform::_90
    } else if name == "180"@ {
        Transform::_180
    } else if name == "270"@ {
        Transform::_270
    } else if name == "flipped"@ {
        Transform::Flipped
    } else if name == "flipped-90"@ {
        Transform::Flipped90
    } else if name == "flipped-180"@ {
        Transform::Flipped180
    } else if name == "flipped-270"@ {
        Transform::Flipped270
    } else {
        Transform::Normal
    }
}

pub fn parse_transform(name: &str) -> (r: Transform)
    ensures
        r == transform_named(name@),
{
    if text_eq(name, "90") {
        Transform::_90
    } else if text_eq(name, "180") {
        Transform::_180
    } else if text_eq(name, "270") {
        Transform::_270
    } else if text_eq(name, "flipped") {
        Transform::Flipped
    } else if text_eq(name, "flipped-90") {
        Transform::Flipped90
    } else if text_eq(name, "flipped-180") {
        Transform::Flipped180
    } else if text_eq(name, "flipped-270") {
        Transform::Flipped270
    } else {
        Transform::Normal
    }
}

/// Every transform is read from its name.
pub proof fn law_transforms_are_read_from_their_names(t: Transform)
    ensures
        transform_named(transform_name(t)) == t,
{
    reveal_strlit("normal");
    reveal_strlit("90");
    reveal_strlit("180");
    reveal_strlit("270");
    reveal_strlit("flipped");
    reveal_strlit("flipped-90");
    reveal_strlit("flipped-180");
    reveal_strlit("flipped-270");
    assert("180"@[0] == '1' && "270"@[0] == '2');
    assert("flipped-180"@[8] == '1' && "flipped-270"@[8] == '2');
    assert("normal"@.len() == 6 && "90"@.len() == 2 && "180"@.len() == 3 && "270"@.len() == 3);
    assert("flipped"@.len() == 7 && "flipped-90"@.len() == 10 && "flipped-180"@.len() == 11
        && "flipped-270"@.len() == 11);
}

/// The settings that all outputs have in common: the name of their transform, and their
/// scale by the bit pattern of a double.
#[derive(Debug)]
pub struct OutputSettings {
    pub transform: String,
    pub scale_bits: u64,
}

/// The bit pattern of the double one.
pub const SCALE_ONE: u64 = 0x3FF0_0000_0000_0000;

impl Default for OutputSettings {
    /// Not turned, and not scaled.
    fn default() -> (r: OutputSettings)
        ensures
            r.transform@ == transform_name(Transform::Normal),
            r.scale_bits == SCALE_ONE,
    {
        OutputSettings { transform: String::from_str("normal"), scale_bits: SCALE_ONE }
    }
}

/// A connector of a card, as far as it decides on anything: what the kernel calls it,
/// the modes of the monitor on it, the scanout engine that drives it, and those that
/// each of its encoders can be driven by.
#[derive(Debug)]
pub struct Connector {
    pub interface: String,
    pub interface_id: u32,
    pub connected: bool,
    pub modes: Vec<DrmMode>,
    pub current: Option<u32>,
    pub encoders: Vec<Vec<u32>>,
}

/// How a connector is lit up: the name of its output, its scanout engine, the index of
/// its mode, the transform and the scale of the output, and its place.
#[derive(Debug)]
pub struct ConnectorPlan {
    pub name: String,
    pub crtc: u32,
    pub mode: usize,
    pub transform: Transform,
    /// A double, by its bit pattern.
    pub scale_bits: u64,
    pub position: Point,
}

/// What is done about a connector.
#[derive(Debug)]
pub enum LightUp {
    /// Nothing: there is no monitor on it, or none that offers a mode.
    Skip,
    Plan(ConnectorPlan),
    /// It can not be lit up, for a reason.
    Fail(String),
}

pub open spec fn connector_name(c: Connector) -> Seq<char> {
    c.interface@ + "-"@ + decimal(c.interface_id as nat)
}

/// The place that the configuration gives an output; the first entry counts.
pub open spec fn placement_of(s: Seq<(String, Point)>, name: Seq<char>) -> Option<Point>
    decreases s.len(),
{
    if s.len() == 0 {
        None
    } else if s[0].0@ == name {
        Some(s[0].1)
    } else {
        placement_of(s.skip(1), name)
    }
}

fn find_placement(placements: &Vec<(String, Point)>, name: &str) -> (r: Option<Point>)
    ensures
        r == placement_of(placements@, name@),
{
    let mut i: usize = 0;
    assert(placements@.skip(0) =~= placements@);
    while i < placements.len()
        invariant
            i <= placements.len(),
            placement_of(placements@, name@) == placement_of(placements@.skip(i as int), name@),
        decreases placements.len() - i,
    {
        assert(placements@.skip(i as int)[0] == placements@[i as int]);
        assert(placements@.skip(i as int).skip(1) =~= placements@.skip(i + 1));
        if text_eq(placements[i].0.as_str(), name) {
            return Some(placements[i].1);
        }
        i = i + 1;
    }
    None
}

/// Whether a plan is the one for a connector, given the scanout engines that are taken,
/// the settings of outputs, the places that the configuration gives, and the widths of
/// the outputs there are.
pub open spec fn is_plan_for(
    plan: ConnectorPlan,
    c: Connector,
    used: Seq<u32>,
    settings: OutputSettings,
    placements: Seq<(String, Point)>,
    widths: Seq<i32>,
) -> bool {
    &&& plan.name@ == connector_name(c)
    &&& engine_for(c.current, c.encoders@, used) == Some(plan.crtc)
    &&& plan.mode == preferred(c.modes@)
    &&& plan.mode < c.modes@.len()
    &&& plan.transform == transform_named(settings.transform@)
    &&& plan.scale_bits == settings.scale_bits
    &&& match placement_of(placements, connector_name(c)) {
        Some(p) => plan.position == p,
        None => plan.position.x == sat(total_width(widths, widths.len())) && plan.position.y == 0,
    }
}

/// Plans how a connector with a monitor is lit up. Without a free scanout engine it can
/// not be.
pub fn connector_connected(
    c: &Connector,
    used: &Vec<u32>,
    settings: &OutputSettings,
    placements: &Vec<(String, Point)>,
    widths: &Vec<i32>,
) -> (r: Result<ConnectorPlan, String>)
    requires
        c.modes.len() > 0,
    ensures
        match r {
            Ok(plan) => is_plan_for(plan, *c, used@, *settings, placements@, widths@),
            Err(text) => engine_for(c.current, c.encoders@, used@) is None && text@
                == "no free CRTC for connector "@ + c.interface@,
        },
{
    let crtc: u32 = match find_crtc_for_connector(c.current, &c.encoders, used) {
        Some(crtc) => crtc,
        None => {
            return Err(join2("no free CRTC for connector ", c.interface.as_str()));
        },
    };
    let mode: usize = preferred_mode(&c.modes);
    let name = join3(c.interface.as_str(), "-", decimal_text(c.interface_id as u128).as_str());
    let position = output_position(find_placement(placements, name.as_str()), widths);
    Ok(
        ConnectorPlan {
            name,
            crtc,
            mode,
            transform: parse_transform(settings.transform.as_str()),
            scale_bits: settings.scale_bits,
            position,
        },
    )
}

/// What is done about a connector of a card that came or changed.
pub fn light_up(
    c: &Connector,
    used: &Vec<u32>,
    settings: &OutputSettings,
    placements: &Vec<(String, Point)>,
    widths: &Vec<i32>,
) -> (r: LightUp)
    ensures
        match r {
            LightUp::Skip => !c.connected || c.modes@.len() == 0,
            LightUp::Plan(plan) => c.connected && c.modes@.len() > 0 && is_plan_for(
                plan,
                *c,
                used@,
                *settings,
                placements@,
                widths@,
            ),
            LightUp::Fail(text) => c.connected && c.modes@.len() > 0 && engine_for(
                c.current,
                c.encoders@,
                used@,
            ) is None && text@ == "no free CRTC for connector "@ + c.interface@,
        },
{
    if !can_light_up(c.connected, &c.modes) {
        return LightUp::Skip;
    }
    match connector_connected(c, used, settings, placements, widths) {
        Ok(plan) => LightUp::Plan(plan),
        Err(text) => LightUp::Fail(text),
    }
}

/// Whether a file name is that of a graphics card: `card` and digits.
pub open spec fn is_card(name: Seq<char>) -> bool {
    let p = "card"@;
    name.len() >= p.len() && name.take(p.len() as int) == p && forall|i: int|
        p.len() <= i < name.len() ==> is_digit(#[trigger] name[i])
}

/// The number of a card. One without a number, or with too large a one, is the last.
pub open spec fn card_number(name: Seq<char>) -> u32 {
    match parsed_number(name.skip("card"@.len() as int), u32::MAX as nat) {
        Some(n) => n as u32,
        None => u32::MAX,
    }
}

pub fn is_card_name(name: &str) -> (r: bool)
    ensures
        r == is_card(name@),
{
    let all = chars_of(name);
    let prefix = chars_of("card");
    let n: usize = prefix.len();
    if all.len() < n {
        return false;
    }
    let start = slice_of(&all, 0, n);
    assert(start@ =~= name@.take(n as int));
    if !crate::text::same_chars(&start, &prefix) {
        return false;
    }
    let mut i: usize = n;
    while i < all.len()
        invariant
            n <= i <= all.len(),
            all@ == name@,
            n == "card"@.len(),
            forall|k: int| n <= k < i ==> is_digit(#[trigger] name@[k]),
        decreases all.len() - i,
    {
        let c: u32 = all[i] as u32;
        if !(48 <= c && c <= 57) {
            assert(!is_digit(name@[i as int]));
            return false;
        }
        i = i + 1;
    }
    true
}

pub fn number_of_card(name: &str) -> (r: u32)
    requires
        is_card(name@),
    ensures
        r == card_number(name@),
{
    let all = chars_of(name);
    let prefix = chars_of("card");
    let digits = slice_of(&all, prefix.len(), all.len());
    assert(digits@ =~= name@.skip("card"@.len() as int));
    let text = string_of(&digits);
    match parse_number(text.as_str(), u32::MAX as u64) {
        Some(n) => n as u32,
        None => u32::MAX,
    }
}

/// A card put into its place among cards that are in order: behind those whose number
/// is not greater.
pub open spec fn put_card(s: Seq<Seq<char>>, name: Seq<char>) -> Seq<Seq<char>>
    decreases s.len(),
{
    if s.len() == 0 || card_number(s.last()) <= card_number(name) {
        s.push(name)
    } else {
        put_card(s.drop_last(), name).push(s.last())
    }
}

/// The cards among the first `n` file names, in the order of their numbers.
pub open spec fn cards_of(names: Seq<Seq<char>>, n: nat) -> Seq<Seq<char>>
    decreases n,
{
    if n == 0 {
        Seq::empty()
    } else {
        let before = cards_of(names, (n - 1) as nat);
        if is_card(names[n - 1]) {
            put_card(before, names[n - 1])
        } else {
            before
        }
    }
}

pub open spec fn name_views(v: Seq<String>) -> Seq<Seq<char>> {
    v.map_values(|s: String| s@)
}

proof fn lemma_put_card(s: Seq<Seq<char>>, name: Seq<char>, i: int)
    requires
        0 <= i <= s.len(),
        i > 0 ==> card_number(s[i - 1]) <= card_number(name),
        forall|k: int| i <= k < s.len() ==> card_number(#[trigger] s[k]) > card_number(name),
    ensures
        put_card(s, name) == s.insert(i, name),
    decreases s.len(),
{
    if i == s.len() {
        assert(put_card(s, name) =~= s.insert(i, name));
    } else {
        assert(card_number(s[s.len() - 1]) > card_number(name));
        let t = s.drop_last();
        assert forall|k: int| i <= k < t.len() implies card_number(#[trigger] t[k]) > card_number(
            name,
        ) by {
            assert(t[k] == s[k]);
        }
        lemma_put_card(t, name, i);
        assert(t.insert(i, name).push(s.last()) =~= s.insert(i, name));
    }
}

/// Only cards are kept, and they are in the order of their numbers.
pub proof fn law_cards_are_in_order(names: Seq<Seq<char>>, n: nat)
    requires
        n <= names.len(),
    ensures
        forall|k: int| 0 <= k < cards_of(names, n).len() ==> is_card(#[trigger] cards_of(
            names,
            n,
        )[k]),
        forall|i: int, k: int|
            0 <= i <= k < cards_of(names, n).len() ==> card_number(#[trigger] cards_of(names, n)[i])
                <= card_number(#[trigger] cards_of(names, n)[k]),
    decreases n,
{
    if n > 0 {
        law_cards_are_in_order(names, (n - 1) as nat);
        let before = cards_of(names, (n - 1) as nat);
        if is_card(names[n - 1]) {
            lemma_put_card_order(before, names[n - 1]);
        }
    }
}

proof fn lemma_put_card_order(s: Seq<Seq<char>>, name: Seq<char>)
    requires
        is_card(name),
        forall|k: int| 0 <= k < s.len() ==> is_card(#[trigger] s[k]),
        forall|i: int, k: int|
            0 <= i <= k < s.len() ==> card_number(#[trigger] s[i]) <= card_number(
                #[trigger] s[k],
            ),
    ensures
        put_card(s, name).len() == s.len() + 1,
        forall|k: int| 0 <= k < put_card(s, name).len() ==> is_card(
            #[trigger] put_card(s, name)[k],
        ),
        forall|k: int|
            0 <= k < put_card(s, name).len() ==> card_number(#[trigger] put_card(s, name)[k])
                <= card_number(name) || (s.len() > 0 && card_number(put_card(s, name)[k])
                <= card_number(s.last())),
        forall|i: int, k: int|
            0 <= i <= k < put_card(s, name).len() ==> card_number(#[trigger] put_card(s, name)[i])
                <= card_number(#[trigger] put_card(s, name)[k]),
    decreases s.len(),
{
    let r = put_card(s, name);
    if s.len() == 0 || card_number(s.last()) <= card_number(name) {
        assert forall|i: int, k: int| 0 <= i <= k < r.len() implies card_number(#[trigger] r[i])
            <= card_number(#[trigger] r[k]) by {
            if k == s.len() && i < k {
                assert(card_number(s[i]) <= card_number(s[s.len() - 1]));
            }
        }
        assert forall|k: int| 0 <= k < r.len() implies is_card(#[trigger] r[k]) by {
            if k < s.len() {
                assert(r[k] == s[k]);
            }
        }
        assert forall|k: int| 0 <= k < r.len() implies card_number(#[trigger] r[k])
            <= card_number(name) || (s.len() > 0 && card_number(r[k]) <= card_number(
            s.last(),
        )) by {
            if k < s.len() {
                assert(r[k] == s[k]);
                assert(card_number(s[k]) <= card_number(s[s.len() - 1]));
            }
        }
    } else {
        let t = s.drop_last();
        assert forall|k: int| 0 <= k < t.len() implies is_card(#[trigger] t[k]) by {
            assert(t[k] == s[k]);
        }
        assert forall|i: int, k: int| 0 <= i <= k < t.len() implies card_number(#[trigger] t[i])
            <= card_number(#[trigger] t[k]) by {
            assert(t[i] == s[i] && t[k] == s[k]);
        }
        lemma_put_card_order(t, name);
        let u = put_card(t, name);
        if t.len() > 0 {
            assert(t.last() == s[s.len() - 2]);
            assert(card_number(s[s.len() - 2]) <= card_number(s[s.len() - 1]));
        }
        assert forall|k: int| 0 <= k < r.len() implies card_number(#[trigger] r[k])
            <= card_number(s.last()) by {
            if k < u.len() {
                assert(r[k] == u[k]);
            }
        }
        assert forall|i: int, k: int| 0 <= i <= k < r.len() implies card_number(#[trigger] r[i])
            <= card_number(#[trigger] r[k]) by {
            if k < u.len() {
                assert(r[i] == u[i] && r[k] == u[k]);
            } else {
                assert(r[k] == s.last());
            }
        }
        assert forall|k: int| 0 <= k < r.len() implies is_card(#[trigger] r[k]) by {
            if k < u.len() {
                assert(r[k] == u[k]);
            } else {
                assert(r[k] == s[s.len() - 1]);
            }
        }
    }
}

proof fn lemma_put_card_keeps(s: Seq<Seq<char>>, name: Seq<char>, other: Seq<char>)
    ensures
        put_card(s, name).contains(name),
        s.contains(other) ==> put_card(s, name).contains(other),
    decreases s.len(),
{
    let r = put_card(s, name);
    if s.len() == 0 || card_number(s.last()) <= card_number(name) {
        assert(r[s.len() as int] == name);
        if s.contains(other) {
            let i = choose|i: int| 0 <= i < s.len() && s[i] == other;
            assert(r[i] == other);
        }
    } else {
        let t = s.drop_last();
        lemma_put_card_keeps(t, name, other);
        let u = put_card(t, name);
        let i = choose|i: int| 0 <= i < u.len() && u[i] == name;
        assert(r[i] == name);
        if s.contains(other) {
            let k = choose|k: int| 0 <= k < s.len() && s[k] == other;
            if k < t.len() {
                assert(t[k] == other);
                let j = choose|j: int| 0 <= j < u.len() && u[j] == other;
                assert(r[j] == other);
            } else {
                assert(r[u.len() as int] == other);
            }
        }
    }
}

/// Every card is kept.
pub proof fn law_no_card_is_lost(names: Seq<Seq<char>>, n: nat, k: int)
    requires
        0 <= k < n <= names.len(),
        is_card(names[k]),
    ensures
        cards_of(names, n).contains(names[k]),
    decreases n,
{
    let before = cards_of(names, (n - 1) as nat);
    if is_card(names[n - 1]) {
        lemma_put_card_keeps(before, names[n - 1], names[k]);
    }
    if k < n - 1 {
        law_no_card_is_lost(names, (n - 1) as nat, k);
    }
}

/// The cards among some file names, in the order of their numbers; cards of one number
/// stay in the order in which they were found.
pub fn order_cards(names: &Vec<String>) -> (r: Vec<String>)
    ensures
        name_views(r@) == cards_of(name_views(names@), names@.len()),
{
    let mut out: Vec<String> = Vec::new();
    let ghost views = name_views(names@);
    assert(name_views(out@) =~= Seq::empty());
    let mut i: usize = 0;
    while i < names.len()
        invariant
            i <= names.len(),
            views == name_views(names@),
            name_views(out@) == cards_of(views, i as nat),
        decreases names.len() - i,
    {
        assert(views[i as int] == names@[i as int]@);
        if is_card_name(names[i].as_str()) {
            proof {
                law_cards_are_in_order(views, i as nat);
            }
            let ghost sorted = cards_of(views, i as nat);
            let number: u32 = number_of_card(names[i].as_str());
            let mut at: usize = out.len();
            let mut found = false;
            while at > 0 && !found
                invariant
                    at <= out.len(),
                    name_views(out@) == sorted,
                    forall|k: int| 0 <= k < sorted.len() ==> is_card(#[trigger] sorted[k]),
                    forall|k: int|
                        at <= k < sorted.len() ==> card_number(#[trigger] sorted[k]) > number,
                    found ==> at > 0 && card_number(sorted[at - 1]) <= number,
                decreases
                    at,
                    if found {
                        0int
                    } else {
                        1int
                    },
            {
                assert(sorted[at - 1] == out@[at - 1]@);
                if number_of_card(out[at - 1].as_str()) <= number {
                    found = true;
                } else {
                    at = at - 1;
                }
            }
            proof {
                lemma_put_card(sorted, views[i as int], at as int);
            }
            out.insert(at, names[i].clone());
            assert(name_views(out@) =~= sorted.insert(at as int, views[i as int]));
        }
        i = i + 1;
    }
    out
}

} // verus!
