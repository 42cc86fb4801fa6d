//! The graphics cards that are in use, as they come and go.
use vstd::prelude::*;

verus! {

/// An output that a card drives: its scanout engine and the output, by number.
#[derive(Debug, Clone, Copy, PartialEq, Eq, Structural)]
pub struct Driven {
    pub crtc: u32,
    pub output: u64,
}

/// A card: its node and the outputs that it drives.
#[derive(Debug)]
pub struct Gpu {
    pub node: u64,
    pub surfaces: Vec<Driven>,
}

#[verifier::ext_equal]
pub struct Card {
    pub node: u64,
    pub driven: Seq<Driven>,
}

impl View for Gpu {
    type V = Card;

    open spec fn view(&self) -> Card {
        Card { node: self.node, driven: self.surfaces@ }
    }
}

/// What is told of a card.
#[derive(Debug, Clone, Copy, PartialEq, Eq, Structural)]
pub struct GpuInfo {
    pub node: u64,
    pub primary: bool,
    pub output_count: u32,
}

/// The cards that are in use.
#[derive(Debug)]
pub struct GpuTable {
    pub gpus: Vec<Gpu>,
}

impl View for GpuTable {
    type V = Seq<Card>;

    open spec fn view(&self) -> Seq<Card> {
        self.gpus@.map_values(|g: Gpu| g@)
    }
}

/// The index of a card, or the number of cards.
pub open spec fn card_at(s: Seq<Card>, node: u64) -> nat
    decreases s.len(),
{
    if s.len() == 0 || s[0].node == node {
        0
    } else {
        1 + card_at(s.skip(1), node)
    }
}

pub open spec fn in_use(s: Seq<Card>, node: u64) -> bool {
    card_at(s, node) < s.len()
}

pub open spec fn outputs_of(d: Seq<Driven>) -> Seq<u64> {
    d.map_values(|x: Driven| x.output)
}

/// The outputs of a card, or none where it is not in use.
pub open spec fn outputs_on(s: Seq<Card>, node: u64) -> Seq<u64> {
    if in_use(s, node) {
        outputs_of(s[card_at(s, node) as int].driven)
    } else {
        Seq::empty()
    }
}

/// With the outputs of a card exchanged.
pub open spec fn driving(s: Seq<Card>, node: u64, driven: Seq<Driven>) -> Seq<Card> {
    if in_use(s, node) {
        s.update(card_at(s, node) as int, Card { node, driven })
    } else {
        s
    }
}

/// The outputs of the first `n` cards, with the cards that drive them.
pub open spec fn targets_of(s: Seq<Card>, n: nat) -> Seq<(u64, u32)>
    decreases n,
{
    if n == 0 {
        Seq::empty()
    } else {
        targets_of(s, (n - 1) as nat) + s[n - 1].driven.map_values(
            |d: Driven| (s[n - 1].node, d.crtc),
        )
    }
}

proof fn lemma_card_at(s: Seq<Card>, node: u64, n: int)
    requires
        0 <= n <= s.len(),
        forall|k: int| 0 <= k < n ==> (#[trigger] s[k]).node != node,
        n < s.len() ==> s[n].node == node,
    ensures
        card_at(s, node) == n,
    decreases s.len(),
{
    if n > 0 {
        assert(s[0].node != node);
        let t = s.skip(1);
        assert forall|k: int| 0 <= k < n - 1 implies (#[trigger] t[k]).node != node by {
            assert(t[k] == s[k + 1]);
        }
        lemma_card_at(t, node, n - 1);
    }
}

impl GpuTable {
    pub fn new() -> (r: GpuTable)
        ensures
            r@ == Seq::<Card>::empty(),
    {
        let r = GpuTable { gpus: Vec::new() };
        assert(r@ =~= Seq::empty());
        r
    }

    fn find(&self, node: u64) -> (r: Option<usize>)
        ensures
            match r {
                Some(i) => i == card_at(self@, node) && i < self.gpus.len()
                    && self.gpus@[i as int].node == node,
                None => card_at(self@, node) == self@.len(),
            },
    {
        let mut i: usize = 0;
        while i < self.gpus.len()
            invariant
                i <= self.gpus.len(),
                forall|k: int| 0 <= k < i ==> (#[trigger] self.gpus@[k]).node != node,
            decreases self.gpus.len() - i,
        {
            if self.gpus[i].node == node {
                proof {
                    assert forall|k: int| 0 <= k < i implies (#[trigger] self@[k]).node != node by {
                        assert(self@[k] == self.gpus@[k]@);
                    }
                    lemma_card_at(self@, node, i as int);
                }
                return Some(i);
            }
            i = i + 1;
        }
        proof {
            assert forall|k: int| 0 <= k < i implies (#[trigger] self@[k]).node != node by {
                assert(self@[k] == self.gpus@[k]@);
            }
            lemma_card_at(self@, node, self.gpus@.len() as int);
        }
        None
    }

    /// Whether a card that has come is to be set up: one in use already is not.
    pub fn is_new(&self, node: u64) -> (r: bool)
        ensures
            r == !in_use(self@, node),
    {
        match self.find(node) {
            Some(_) => false,
            None => true,
        }
    }

    /// Whether the wallpaper is loaded with a card: with the first one.
    pub fn loads_wallpaper(&self) -> (r: bool)
        ensures
            r == (self@.len() == 0),
    {
        self.gpus.len() == 0
    }

    /// Takes a card into use, with the outputs that could be lit up; one in use is
    /// replaced.
    pub fn device_added(&mut self, node: u64, surfaces: Vec<Driven>)
        ensures
            final(self)@ == (if in_use(old(self)@, node) {
                driving(old(self)@, node, surfaces@)
            } else {
                old(self)@.push(Card { node, driven: surfaces@ })
            }),
    {
        match self.find(node) {
            Some(i) => {
                self.gpus[i] = Gpu { node, surfaces };
                assert(self@ =~= driving(old(self)@, node, surfaces@));
            },
            None => {
                self.gpus.push(Gpu { node, surfaces });
                assert(self@ =~= old(self)@.push(Card { node, driven: surfaces@ }));
            },
        }
    }

    /// The connectors of a card have changed: all its outputs are taken down, before
    /// it is looked at anew. Returns the outputs.
    pub fn device_changed(&mut self, node: u64) -> (r: Vec<u64>)
        ensures
            final(self)@ == driving(old(self)@, node, Seq::empty()),
            r@ == outputs_on(old(self)@, node),
    {
        match self.find(node) {
            Some(i) => {
                let out = output_list(&self.gpus[i].surfaces);
                self.gpus[i] = Gpu { node, surfaces: Vec::new() };
                assert(self@ =~= driving(old(self)@, node, Seq::empty()));
                out
            },
            None => Vec::new(),
        }
    }

    /// An output of a card was lit up.
    pub fn lit_up(&mut self, node: u64, driven: Driven)
        ensures
            final(self)@ == (if in_use(old(self)@, node) {
                driving(
                    old(self)@,
                    node,
                    old(self)@[card_at(old(self)@, node) as int].driven.push(driven),
                )
            } else {
                old(self)@
            }),
    {
        if let Some(i) = self.find(node) {
            let ghost before = self@;
            self.gpus[i].surfaces.push(driven);
            assert(self@ =~= driving(before, node, before[i as int].driven.push(driven)));
        }
    }

    /// A card is gone. Returns its outputs.
    pub fn device_removed(&mut self, node: u64) -> (r: Vec<u64>)
        ensures
            final(self)@ == (if in_use(old(self)@, node) {
                old(self)@.remove(card_at(old(self)@, node) as int)
            } else {
                old(self)@
            }),
            r@ == outputs_on(old(self)@, node),
    {
        match self.find(node) {
            Some(i) => {
                let gpu = self.gpus.remove(i);
                assert(self@ =~= old(self)@.remove(i as int));
                output_list(&gpu.surfaces)
            },
            None => Vec::new(),
        }
    }

    /// Every output with the card that drives it, to be drawn anew.
    pub fn targets(&self) -> (r: Vec<(u64, u32)>)
        ensures
            r@ == targets_of(self@, self@.len()),
    {
        let mut out: Vec<(u64, u32)> = Vec::new();
        let mut i: usize = 0;
        while i < self.gpus.len()
            invariant
                i <= self.gpus.len(),
                out@ == targets_of(self@, i as nat),
            decreases self.gpus.len() - i,
        {
            let g = &self.gpus[i];
            let ghost start = out@;
            let ghost card = self@[i as int];
            let ghost row = card.driven.map_values(|d: Driven| (card.node, d.crtc));
            let mut k: usize = 0;
            while k < g.surfaces.len()
                invariant
                    k <= g.surfaces.len(),
                    card == g@,
                    row == card.driven.map_values(|d: Driven| (card.node, d.crtc)),
                    out@ == start + row.take(k as int),
                decreases g.surfaces.len() - k,
            {
                out.push((g.node, g.surfaces[k].crtc));
                k = k + 1;
                assert(row.take(k as int) =~= row.take(k - 1).push(row[k - 1]));
                assert(out@ =~= start + row.take(k as int));
            }
            assert(row.take(k as int) =~= row);
            assert(self@[i as int].driven.map_values(|d: Driven| (self@[i as int].node, d.crtc))
                =~= row);
            i = i + 1;
        }
        out
    }

    /// What is told of all cards.
    pub fn gpu_list(&self, primary: u64) -> (r: Vec<GpuInfo>)
        ensures
            r@ == Seq::new(
                self@.len(),
                |i: int|
                    GpuInfo {
                        node: self@[i].node,
                        primary: self@[i].node == primary,
                        output_count: self@[i].driven.len() as u32,
                    },
            ),
    {
        let mut out: Vec<GpuInfo> = Vec::new();
        let mut i: usize = 0;
        while i < self.gpus.len()
            invariant
                i <= self.gpus.len(),
                out.len() == i,
                forall|k: int|
                    0 <= k < i ==> #[trigger] out@[k] == (GpuInfo {
                        node: self@[k].node,
                        primary: self@[k].node == primary,
                        output_count: self@[k].driven.len() as u32,
                    }),
            decreases self.gpus.len() - i,
        {
            let g = &self.gpus[i];
            assert(self@[i as int] == g@);
            out.push(
                GpuInfo {
                    node: g.node,
                    primary: g.node == primary,
                    output_count: g.surfaces.len() as u32,
                },
            );
            i = i + 1;
        }
        assert(out@ =~= Seq::new(
            self@.len(),
            |i: int|
                GpuInfo {
                    node: self@[i].node,
                    primary: self@[i].node == primary,
                    output_count: self@[i].driven.len() as u32,
                },
        ));
        out
    }
}

fn output_list(v: &Vec<Driven>) -> (r: Vec<u64>)
    ensures
        r@ == outputs_of(v@),
{
    let mut out: Vec<u64> = Vec::new();
    let mut i: usize = 0;
    while i < v.len()
        invariant
            i <= v.len(),
            out.len() == i,
            forall|k: int| 0 <= k < i ==> #[trigger] out@[k] == v@[k].output,
        decreases v.len() - i,
    {
        out.push(v[i].output);
        i = i + 1;
    }
    assert(out@ =~= outputs_of(v@));
    out
}

/// Every card is in use once.
pub open spec fn cards_once(s: Seq<Card>) -> bool {
    forall|i: int, j: int|
        0 <= i < j < s.len() ==> (#[trigger] s[i]).node != (#[trigger] s[j]).node
}

proof fn lemma_card_found(s: Seq<Card>, node: u64)
    ensures
        card_at(s, node) <= s.len(),
        in_use(s, node) ==> s[card_at(s, node) as int].node == node,
        !in_use(s, node) ==> forall|k: int| 0 <= k < s.len() ==> (#[trigger] s[k]).node != node,
    decreases s.len(),
{
    if s.len() > 0 && s[0].node != node {
        let t = s.skip(1);
        lemma_card_found(t, node);
        if !in_use(s, node) {
            assert forall|k: int| 0 <= k < s.len() implies (#[trigger] s[k]).node != node by {
                if k > 0 {
                    assert(s[k] == t[k - 1]);
                }
            }
        }
    }
}

/// Cards that come and go are in use once, and one that is gone is in use no more.
pub proof fn law_cards_come_and_go(s: Seq<Card>, node: u64, driven: Seq<Driven>)
    requires
        cards_once(s),
    ensures
        !in_use(s, node) ==> cards_once(s.push(Card { node, driven })),
        cards_once(driving(s, node, driven)),
        in_use(s, node) ==> cards_once(s.remove(card_at(s, node) as int)) && !in_use(
            s.remove(card_at(s, node) as int),
            node,
        ),
{
    lemma_card_found(s, node);
    if in_use(s, node) {
        let i = card_at(s, node) as int;
        let r = s.remove(i);
        assert forall|a: int, b: int| 0 <= a < b < r.len() implies (#[trigger] r[a]).node != (
        #[trigger] r[b]).node by {
            let x = if a < i {
                a
            } else {
                a + 1
            };
            let y = if b < i {
                b
            } else {
                b + 1
            };
            assert(r[a] == s[x] && r[b] == s[y]);
        }
        assert forall|k: int| 0 <= k < r.len() implies (#[trigger] r[k]).node != node by {
            if k < i {
                assert(r[k] == s[k]);
                assert(s[k].node != s[i].node);
            } else {
                assert(r[k] == s[k + 1]);
                assert(s[i].node != s[k + 1].node);
            }
        }
        lemma_card_at(r, node, r.len() as int);
    }
}

} // verus!
