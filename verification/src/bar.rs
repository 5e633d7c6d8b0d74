//! The protocol-facing data model and the aggregator: rendered blocks, the
//! stream header, click records, and the `Bar` that merges readings by name,
//! builds the page's block list, and decides when a frame is emitted.

use crate::config::ItemV;
use vstd::prelude::*;

verus! {

/// The mathematical value of a `Block`.
pub ghost struct BlockV {
    pub full_text: Seq<char>,
    pub short_text: Option<Seq<char>>,
    pub color: Option<Seq<char>>,
    pub min_width: Option<Seq<char>>,
    pub align: Option<Seq<char>>,
    pub name: Option<Seq<char>>,
    pub instance: Option<Seq<char>>,
    pub urgent: Option<bool>,
    pub separator: Option<bool>,
    pub separator_block_width: Option<u16>,
    pub markup: Option<Seq<char>>,
    pub background: Option<Seq<char>>,
    pub border: Option<Seq<char>>,
    pub border_top: Option<Seq<char>>,
    pub border_bottom: Option<Seq<char>>,
    pub border_left: Option<Seq<char>>,
    pub border_right: Option<Seq<char>>,
}

/// One rendered, protocol-ready display unit.
#[derive(Debug)]
pub struct Block {
    pub full_text: String,
    pub short_text: Option<String>,
    pub color: Option<String>,
    pub min_width: Option<String>,
    pub align: Option<String>,
    pub name: Option<String>,
    pub instance: Option<String>,
    pub urgent: Option<bool>,
    pub separator: Option<bool>,
    pub separator_block_width: Option<u16>,
    pub markup: Option<String>,
    pub background: Option<String>,
    pub border: Option<String>,
    pub border_top: Option<String>,
    pub border_bottom: Option<String>,
    pub border_left: Option<String>,
    pub border_right: Option<String>,
}

impl View for Block {
    type V = BlockV;

    open spec fn view(&self) -> BlockV {
        BlockV {
            full_text: self.full_text@,
            short_text: crate::config::opt_view(self.short_text),
            color: crate::config::opt_view(self.color),
            min_width: crate::config::opt_view(self.min_width),
            align: crate::config::opt_view(self.align),
            name: crate::config::opt_view(self.name),
            instance: crate::config::opt_view(self.instance),
            urgent: self.urgent,
            separator: self.separator,
            separator_block_width: self.separator_block_width,
            markup: crate::config::opt_view(self.markup),
            background: crate::config::opt_view(self.background),
            border: crate::config::opt_view(self.border),
            border_top: crate::config::opt_view(self.border_top),
            border_bottom: crate::config::opt_view(self.border_bottom),
            border_left: crate::config::opt_view(self.border_left),
            border_right: crate::config::opt_view(self.border_right),
        }
    }
}

/// The block every field of a fresh `Block` starts from: empty text, all
/// optional fields absent.
pub open spec fn empty_block_v() -> BlockV {
    BlockV {
        full_text: Seq::empty(),
        short_text: Option::None,
        color: Option::None,
        min_width: Option::None,
        align: Option::None,
        name: Option::None,
        instance: Option::None,
        urgent: Option::None,
        separator: Option::None,
        separator_block_width: Option::None,
        markup: Option::None,
        background: Option::None,
        border: Option::None,
        border_top: Option::None,
        border_bottom: Option::None,
        border_left: Option::None,
        border_right: Option::None,
    }
}

impl Default for Block {
    /// Empty text and no optional field set.
    fn default() -> (r: Self)
        ensures
            r@ == empty_block_v(),
    {
        let r = Block {
            full_text: String::new(),
            short_text: Option::None,
            color: Option::None,
            min_width: Option::None,
            align: Option::None,
            name: Option::None,
            instance: Option::None,
            urgent: Option::None,
            separator: Option::None,
            separator_block_width: Option::None,
            markup: Option::None,
            background: Option::None,
            border: Option::None,
            border_top: Option::None,
            border_bottom: Option::None,
            border_left: Option::None,
            border_right: Option::None,
        };
        proof {
            assert(r@.full_text =~= empty_block_v().full_text);
        }
        r
    }
}

fn clone_opt_string(o: &Option<String>) -> (r: Option<String>)
    ensures
        r == *o,
{
    match o {
        Option::None => Option::None,
        Option::Some(s) => Option::Some(s.clone()),
    }
}

impl Clone for Block {
    /// An exact copy, field for field.
    fn clone(&self) -> (r: Self)
        ensures
            r == *self,
    {
        Block {
            full_text: self.full_text.clone(),
            short_text: clone_opt_string(&self.short_text),
            color: clone_opt_string(&self.color),
            min_width: clone_opt_string(&self.min_width),
            align: clone_opt_string(&self.align),
            name: clone_opt_string(&self.name),
            instance: clone_opt_string(&self.instance),
            urgent: self.urgent,
            separator: self.separator,
            separator_block_width: self.separator_block_width,
            markup: clone_opt_string(&self.markup),
            background: clone_opt_string(&self.background),
            border: clone_opt_string(&self.border),
            border_top: clone_opt_string(&self.border_top),
            border_bottom: clone_opt_string(&self.border_bottom),
            border_left: clone_opt_string(&self.border_left),
            border_right: clone_opt_string(&self.border_right),
        }
    }
}

fn opt_string_eq(a: &Option<String>, b: &Option<String>) -> (r: bool)
    ensures
        r == (crate::config::opt_view(*a) == crate::config::opt_view(*b)),
{
    match (a, b) {
        (Option::None, Option::None) => true,
        (Option::Some(x), Option::Some(y)) => *x == *y,
        _ => false,
    }
}

fn opt_bool_eq(a: &Option<bool>, b: &Option<bool>) -> (r: bool)
    ensures
        r == (*a == *b),
{
    match (a, b) {
        (Option::None, Option::None) => true,
        (Option::Some(x), Option::Some(y)) => *x == *y,
        _ => false,
    }
}

fn opt_u16_eq(a: &Option<u16>, b: &Option<u16>) -> (r: bool)
    ensures
        r == (*a == *b),
{
    match (a, b) {
        (Option::None, Option::None) => true,
        (Option::Some(x), Option::Some(y)) => *x == *y,
        _ => false,
    }
}

impl PartialEq for Block {
    /// Structural equality: every rendered field equal.
    fn eq(&self, other: &Block) -> (r: bool) {
        self.full_text == other.full_text && opt_string_eq(&self.short_text, &other.short_text)
            && opt_string_eq(
            &self.color,
            &other.color,
        ) && opt_string_eq(&self.min_width, &other.min_width) && opt_string_eq(
            &self.align,
            &other.align,
        ) && opt_string_eq(&self.name, &other.name) && opt_string_eq(
            &self.instance,
            &other.instance,
        ) && opt_bool_eq(&self.urgent, &other.urgent) && opt_bool_eq(
            &self.separator,
            &other.separator,
        ) && opt_u16_eq(&self.separator_block_width, &other.separator_block_width)
            && opt_string_eq(&self.markup, &other.markup) && opt_string_eq(
            &self.background,
            &other.background,
        ) && opt_string_eq(&self.border, &other.border) && opt_string_eq(
            &self.border_top,
            &other.border_top,
        ) && opt_string_eq(&self.border_bottom, &other.border_bottom) && opt_string_eq(
            &self.border_left,
            &other.border_left,
        ) && opt_string_eq(&self.border_right, &other.border_right)
    }
}

impl Eq for Block {

}

impl vstd::std_specs::cmp::PartialEqSpecImpl for Block {
    open spec fn obeys_eq_spec() -> bool {
        true
    }

    open spec fn eq_spec(&self, other: &Block) -> bool {
        self@ == other@
    }
}

/// The stream header sent once, before any frame.
#[derive(Debug)]
pub struct Header {
    pub version: u8,
    pub stop_signal: Option<u8>,
    pub cont_signal: Option<u8>,
    pub click_events: Option<bool>,
}

impl Header {
    pub fn new(version: u8, stop_signal: Option<u8>, cont_signal: Option<u8>, click_events: Option<
        bool,
    >) -> (r: Header)
        ensures
            r.version == version,
            r.stop_signal == stop_signal,
            r.cont_signal == cont_signal,
            r.click_events == click_events,
    {
        Header { version, stop_signal, cont_signal, click_events }
    }
}

/// The rendered block list as mathematical values.
pub open spec fn blocks_view(s: Seq<Block>) -> Seq<BlockV> {
    s.map(|i: int, b: Block| b@)
}

/// The aggregator's map as pairs of name and block value.
pub open spec fn entries_view(s: Seq<(String, Block)>) -> Seq<(Seq<char>, BlockV)> {
    s.map(|i: int, e: (String, Block)| (e.0@, e.1@))
}

/// The block stored under `n`, if any.
pub open spec fn lookup(m: Seq<(Seq<char>, BlockV)>, n: Seq<char>) -> Option<BlockV>
    decreases m.len(),
{
    if m.len() == 0 {
        Option::None
    } else if m[0].0 == n {
        Option::Some(m[0].1)
    } else {
        lookup(m.skip(1), n)
    }
}

/// The map with `n` bound to `b`: the first binding of `n` replaced, or a
/// new binding appended.
pub open spec fn upsert(m: Seq<(Seq<char>, BlockV)>, n: Seq<char>, b: BlockV) -> Seq<
    (Seq<char>, BlockV),
>
    decreases m.len(),
{
    if m.len() == 0 {
        seq![(n, b)]
    } else if m[0].0 == n {
        seq![(n, b)] + m.skip(1)
    } else {
        seq![m[0]] + upsert(m.skip(1), n, b)
    }
}

/// What `lookup` finds after an `upsert`: the new block under its name,
/// every other name as before.
pub proof fn lemma_lookup_upsert(
    m: Seq<(Seq<char>, BlockV)>,
    n: Seq<char>,
    b: BlockV,
    x: Seq<char>,
)
    ensures
        lookup(upsert(m, n, b), x) == if x == n {
            Option::Some(b)
        } else {
            lookup(m, x)
        },
    decreases m.len(),
{
    if m.len() == 0 {
        let u = upsert(m, n, b);
        assert(u == seq![(n, b)]);
        assert(u[0] == (n, b));
        assert(u.skip(1) =~= Seq::<(Seq<char>, BlockV)>::empty());
        if x == n {
            assert(lookup(u, x) == Option::Some(b));
        } else {
            assert(lookup(u, x) == lookup(u.skip(1), x));
        }
    } else if m[0].0 == n {
        let u = seq![(n, b)] + m.skip(1);
        assert(upsert(m, n, b) == u);
        assert(u[0] == (n, b));
        assert(u.skip(1) =~= m.skip(1));
        if x == n {
            assert(lookup(u, x) == Option::Some(b));
        } else {
            assert(lookup(u, x) == lookup(m.skip(1), x));
            assert(lookup(m, x) == lookup(m.skip(1), x));
        }
    } else {
        lemma_lookup_upsert(m.skip(1), n, b, x);
        let u = seq![m[0]] + upsert(m.skip(1), n, b);
        assert(upsert(m, n, b) == u);
        assert(u[0] == m[0]);
        assert(u.skip(1) =~= upsert(m.skip(1), n, b));
        if x == m[0].0 {
            assert(lookup(u, x) == Option::Some(m[0].1));
            assert(lookup(m, x) == Option::Some(m[0].1));
        } else {
            assert(lookup(u, x) == lookup(upsert(m.skip(1), n, b), x));
            assert(lookup(m, x) == lookup(m.skip(1), x));
        }
    }
}

proof fn lemma_lookup_at(m: Seq<(Seq<char>, BlockV)>, n: Seq<char>, j: int)
    requires
        0 <= j < m.len(),
        m[j].0 == n,
        forall|k: int| 0 <= k < j ==> #[trigger] m[k].0 != n,
    ensures
        lookup(m, n) == Option::Some(m[j].1),
    decreases j,
{
    if j > 0 {
        assert(m[0].0 != n);
        assert(m.skip(1)[j - 1] == m[j]);
        assert(forall|k: int| 0 <= k < j - 1 ==> #[trigger] m.skip(1)[k].0 != n);
        lemma_lookup_at(m.skip(1), n, j - 1);
    }
}

proof fn lemma_lookup_none(m: Seq<(Seq<char>, BlockV)>, n: Seq<char>)
    requires
        forall|k: int| 0 <= k < m.len() ==> #[trigger] m[k].0 != n,
    ensures
        lookup(m, n) is None,
    decreases m.len(),
{
    if m.len() > 0 {
        assert(m[0].0 != n);
        assert(forall|k: int| 0 <= k < m.len() - 1 ==> #[trigger] m.skip(1)[k].0 != n);
        lemma_lookup_none(m.skip(1), n);
    }
}

proof fn lemma_upsert_at(m: Seq<(Seq<char>, BlockV)>, n: Seq<char>, b: BlockV, j: int)
    requires
        0 <= j < m.len(),
        m[j].0 == n,
        forall|k: int| 0 <= k < j ==> #[trigger] m[k].0 != n,
    ensures
        upsert(m, n, b) == m.update(j, (n, b)),
    decreases j,
{
    if j == 0 {
        assert(seq![(n, b)] + m.skip(1) =~= m.update(0, (n, b)));
    } else {
        assert(m[0].0 != n);
        assert(m.skip(1)[j - 1] == m[j]);
        assert(forall|k: int| 0 <= k < j - 1 ==> #[trigger] m.skip(1)[k].0 != n);
        lemma_upsert_at(m.skip(1), n, b, j - 1);
        assert(seq![m[0]] + m.skip(1).update(j - 1, (n, b)) =~= m.update(j, (n, b)));
    }
}

proof fn lemma_upsert_append(m: Seq<(Seq<char>, BlockV)>, n: Seq<char>, b: BlockV)
    requires
        forall|k: int| 0 <= k < m.len() ==> #[trigger] m[k].0 != n,
    ensures
        upsert(m, n, b) == m.push((n, b)),
    decreases m.len(),
{
    if m.len() == 0 {
        assert(seq![(n, b)] =~= m.push((n, b)));
    } else {
        assert(m[0].0 != n);
        assert(forall|k: int| 0 <= k < m.len() - 1 ==> #[trigger] m.skip(1)[k].0 != n);
        lemma_upsert_append(m.skip(1), n, b);
        assert(seq![m[0]] + m.skip(1).push((n, b)) =~= m.push((n, b)));
    }
}

/// The fixed "page up" affordance block.
pub open spec fn page_up_block() -> BlockV {
    BlockV { full_text: "▲"@, name: Option::Some("yaib-page-up"@), ..empty_block_v() }
}

/// The fixed "page down" affordance block.
pub open spec fn page_down_block() -> BlockV {
    BlockV { full_text: "▼"@, name: Option::Some("yaib-page-down"@), ..empty_block_v() }
}

/// The page's items in order, each replaced by its stored block; items with
/// no reading yet are skipped.
pub open spec fn page_blocks(m: Seq<(Seq<char>, BlockV)>, items: Seq<ItemV>) -> Seq<BlockV>
    decreases items.len(),
{
    if items.len() == 0 {
        Seq::empty()
    } else {
        (match lookup(m, items[0].name) {
            Option::Some(b) => seq![b],
            Option::None => Seq::empty(),
        }) + page_blocks(m, items.skip(1))
    }
}

/// The pagination affordances: "page up" unless on the last page, then
/// "page down" unless on the first.
pub open spec fn pagination_blocks(page: int, count: int) -> Seq<BlockV> {
    (if page != count - 1 {
        seq![page_up_block()]
    } else {
        Seq::empty()
    }) + (if page != 0 {
        seq![page_down_block()]
    } else {
        Seq::empty()
    })
}

/// One whole frame: the current page's blocks, then the pagination
/// affordances.
pub open spec fn spec_frame(
    m: Seq<(Seq<char>, BlockV)>,
    items: Seq<ItemV>,
    page: int,
    count: int,
) -> Seq<BlockV> {
    page_blocks(m, items) + pagination_blocks(page, count)
}

/// The mathematical value of a `Bar`.
pub ghost struct BarV {
    pub state: Seq<(Seq<char>, BlockV)>,
    pub last_send: Option<u64>,
    pub last_sent: Seq<BlockV>,
}

/// The configured update interval, or the default.
pub open spec fn spec_interval(c: crate::config::ConfigV) -> u64 {
    match c.update_interval_ms {
        Option::Some(ms) => ms,
        Option::None => crate::config::DEFAULT_UPDATE_INTERVAL_MS,
    }
}

/// One aggregator step: store the rendered block under its name; then, when
/// the interval has passed (or nothing was emitted yet) and the new frame
/// differs from the last one sent, emit it and remember it; otherwise emit
/// nothing and keep the emission history unchanged.
pub open spec fn spec_step(
    b: BarV,
    name: Seq<char>,
    blk: BlockV,
    items: Seq<ItemV>,
    page: int,
    count: int,
    interval: u64,
    now: u64,
) -> (BarV, Option<Seq<BlockV>>) {
    let m2 = upsert(b.state, name, blk);
    let due = match b.last_send {
        Option::None => true,
        Option::Some(t) => (now as int) >= (t as int) + (interval as int),
    };
    let f = spec_frame(m2, items, page, count);
    if due && f != b.last_sent {
        (BarV { state: m2, last_send: Option::Some(now), last_sent: f }, Option::Some(f))
    } else {
        (BarV { state: m2, last_send: b.last_send, last_sent: b.last_sent }, Option::None)
    }
}

/// The aggregator: the last block per name, and the emission history the
/// dedup and rate limit work from.
#[derive(Debug)]
pub struct Bar {
    state: Vec<(String, Block)>,
    last_send: Option<u64>,
    last_sent: Vec<Block>,
}

impl View for Bar {
    type V = BarV;

    closed spec fn view(&self) -> BarV {
        BarV {
            state: entries_view(self.state@),
            last_send: self.last_send,
            last_sent: blocks_view(self.last_sent@),
        }
    }
}

impl Bar {
    /// A fresh aggregator: no blocks, nothing emitted yet.
    pub fn new() -> (r: Bar)
        ensures
            r@.state == Seq::<(Seq<char>, BlockV)>::empty(),
            r@.last_send is None,
            r@.last_sent == Seq::<BlockV>::empty(),
    {
        let r = Bar { state: Vec::new(), last_send: Option::None, last_sent: Vec::new() };
        proof {
            assert(r@.state =~= Seq::<(Seq<char>, BlockV)>::empty());
            assert(r@.last_sent =~= Seq::<BlockV>::empty());
        }
        r
    }

    fn find_entry(&self, name: &String) -> (r: Option<usize>)
        ensures
            match r {
                Option::Some(j) => j < self@.state.len() && self@.state[j as int].0 == name@
                    && forall|k: int| 0 <= k < j ==> #[trigger] self@.state[k].0 != name@,
                Option::None => forall|k: int|
                    0 <= k < self@.state.len() ==> #[trigger] self@.state[k].0 != name@,
            },
    {
        let mut i: usize = 0;
        while i < self.state.len()
            invariant
                i <= self.state@.len(),
                forall|k: int| 0 <= k < i ==> #[trigger] entries_view(self.state@)[k].0 != name@,
            decreases self.state@.len() - i,
        {
            if self.state[i].0 == *name {
                proof {
                    assert(entries_view(self.state@)[i as int].0 == name@);
                }
                return Option::Some(i);
            }
            proof {
                assert(entries_view(self.state@)[i as int].0 == self.state@[i as int].0@);
            }
            i = i + 1;
        }
        Option::None
    }

    /// Store `block` as the latest rendering for `name`.
    pub fn upsert_block(&mut self, name: String, block: Block)
        ensures
            final(self)@.state == upsert(old(self)@.state, name@, block@),
            final(self)@.last_send == old(self)@.last_send,
            final(self)@.last_sent == old(self)@.last_sent,
    {
        let ghost m = self@.state;
        match self.find_entry(&name) {
            Option::Some(j) => {
                proof {
                    lemma_upsert_at(m, name@, block@, j as int);
                }
                self.state[j] = (name, block);
                proof {
                    assert(entries_view(self.state@) =~= upsert(m, name@, block@));
                }
            },
            Option::None => {
                proof {
                    lemma_upsert_append(m, name@, block@);
                }
                self.state.push((name, block));
                proof {
                    assert(entries_view(self.state@) =~= upsert(m, name@, block@));
                }
            },
        }
    }

    /// The block list for the page shown now: the page's items in order,
    /// those with a stored block only, then the pagination affordances.
    pub fn build_frame(&self, ui: &crate::state::State, config: &crate::config::Config) -> (r: Vec<
        Block,
    >)
        requires
            ui.page < config@.pages.len(),
        ensures
            blocks_view(r@) == spec_frame(
                self@.state,
                config@.pages[ui.page as int],
                ui.page as int,
                config@.pages.len() as int,
            ),
    {
        let ghost m = self@.state;
        let page = ui.current_page();
        let pg = config.page_at(page);
        let ghost items = config@.pages[page as int];
        let n = pg.len();
        let mut v: Vec<Block> = Vec::new();
        let mut i: usize = 0;
        proof {
            assert(items.skip(0) =~= items);
            assert(blocks_view(v@) =~= Seq::<BlockV>::empty());
            assert(blocks_view(v@) + page_blocks(m, items) =~= page_blocks(m, items));
        }
        while i < n
            invariant
                i <= n,
                n == items.len(),
                pg@ == items,
                m == entries_view(self.state@),
                page_blocks(m, items) == blocks_view(v@) + page_blocks(m, items.skip(i as int)),
            decreases n - i,
        {
            let ghost rest = items.skip(i as int);
            proof {
                assert(rest[0] == items[i as int]);
                assert(rest.skip(1) =~= items.skip(i as int + 1));
            }
            let item = pg.item_at(i);
            match self.find_entry(&item.name) {
                Option::Some(j) => {
                    proof {
                        assert forall|k: int| 0 <= k < j implies #[trigger] m[k].0
                            != item.name@ by {
                            assert(self@.state[k].0 != item.name@);
                        }
                        lemma_lookup_at(m, item.name@, j as int);
                    }
                    let blk = self.state[j].1.clone();
                    let ghost vprev = v@;
                    proof {
                        assert(m[j as int] == (self.state@[j as int].0@, self.state@[j as int].1@));
                    }
                    v.push(blk);
                    proof {
                        assert(blocks_view(v@) =~= blocks_view(vprev).push(m[j as int].1));
                        assert(blocks_view(vprev) + (seq![m[j as int].1] + page_blocks(
                            m,
                            rest.skip(1),
                        )) =~= blocks_view(v@) + page_blocks(m, rest.skip(1)));
                    }
                },
                Option::None => {
                    proof {
                        assert forall|k: int| 0 <= k < m.len() implies #[trigger] m[k].0
                            != item.name@ by {
                            assert(self@.state[k].0 != item.name@);
                        }
                        lemma_lookup_none(m, item.name@);
                        assert(Seq::<BlockV>::empty() + page_blocks(m, rest.skip(1))
                            =~= page_blocks(m, rest.skip(1)));
                    }
                },
            }
            i = i + 1;
        }
        proof {
            assert(items.skip(items.len() as int) =~= Seq::<ItemV>::empty());
            assert(blocks_view(v@) + Seq::<BlockV>::empty() =~= blocks_view(v@));
        }
        let count = config.page_count();
        if page != count - 1 {
            let mut b = Block::default();
            b.full_text = "▲".to_owned();
            b.name = Option::Some("yaib-page-up".to_owned());
            proof {
                assert(b@ == page_up_block());
            }
            let ghost vprev = v@;
            v.push(b);
            proof {
                assert(blocks_view(v@) =~= blocks_view(vprev).push(page_up_block()));
            }
        }
        if page != 0 {
            let mut b = Block::default();
            b.full_text = "▼".to_owned();
            b.name = Option::Some("yaib-page-down".to_owned());
            proof {
                assert(b@ == page_down_block());
            }
            let ghost vprev = v@;
            v.push(b);
            proof {
                assert(blocks_view(v@) =~= blocks_view(vprev).push(page_down_block()));
            }
        }
        proof {
            assert(blocks_view(v@) =~= spec_frame(
                m,
                items,
                page as int,
                config@.pages.len() as int,
            ));
        }
        v
    }

    /// One aggregator step, exactly `spec_step`: store the block, and emit
    /// the new frame when the interval allows it and it differs from the
    /// last frame sent.
    pub fn handle_block(
        &mut self,
        name: String,
        block: Block,
        ui: &crate::state::State,
        config: &crate::config::Config,
        now_ms: u64,
    ) -> (r: Option<Vec<Block>>)
        requires
            ui.page < config@.pages.len(),
        ensures
            ({
                let (b2, out) = spec_step(
                    old(self)@,
                    name@,
                    block@,
                    config@.pages[ui.page as int],
                    ui.page as int,
                    config@.pages.len() as int,
                    spec_interval(config@),
                    now_ms,
                );
                final(self)@ == b2 && (match (r, out) {
                    (Option::Some(v), Option::Some(f)) => blocks_view(v@) == f,
                    (Option::None, Option::None) => true,
                    _ => false,
                })
            }),
    {
        let ghost b0 = self@;
        let ghost nv = name@;
        let ghost bv = block@;
        self.upsert_block(name, block);
        let interval = config.update_interval();
        let due = match self.last_send {
            Option::None => true,
            Option::Some(t) => now_ms >= t && now_ms - t >= interval,
        };
        if !due {
            return Option::None;
        }
        let v = self.build_frame(ui, config);
        let same = frames_equal(&self.last_sent, &v);
        if same {
            return Option::None;
        }
        let out = clone_blocks(&v);
        self.last_sent = v;
        self.last_send = Option::Some(now_ms);
        proof {
            assert(blocks_view(self.last_sent@) =~= blocks_view(out@));
        }
        Option::Some(out)
    }
}

/// True exactly when the two lists render the same: same length, every block
/// structurally equal.
pub fn frames_equal(a: &Vec<Block>, b: &Vec<Block>) -> (r: bool)
    ensures
        r == (blocks_view(a@) == blocks_view(b@)),
{
    if a.len() != b.len() {
        proof {
            assert(blocks_view(a@).len() != blocks_view(b@).len());
        }
        return false;
    }
    let mut i: usize = 0;
    while i < a.len()
        invariant
            i <= a@.len(),
            a@.len() == b@.len(),
            forall|k: int| 0 <= k < i ==> #[trigger] blocks_view(a@)[k] == blocks_view(b@)[k],
        decreases a@.len() - i,
    {
        if !(a[i] == b[i]) {
            proof {
                assert(blocks_view(a@)[i as int] != blocks_view(b@)[i as int]);
            }
            return false;
        }
        proof {
            assert(blocks_view(a@)[i as int] == blocks_view(b@)[i as int]);
        }
        i = i + 1;
    }
    proof {
        assert(blocks_view(a@) =~= blocks_view(b@));
    }
    true
}

/// An exact copy of a block list.
pub fn clone_blocks(v: &Vec<Block>) -> (r: Vec<Block>)
    ensures
        r@ == v@,
{
    let mut r: Vec<Block> = Vec::new();
    let mut i: usize = 0;
    while i < v.len()
        invariant
            i <= v@.len(),
            r@ == v@.take(i as int),
        decreases v@.len() - i,
    {
        r.push(v[i].clone());
        proof {
            assert(v@.take(i as int).push(v@[i as int]) =~= v@.take(i as int + 1));
        }
        i = i + 1;
    }
    proof {
        assert(v@.take(v@.len() as int) =~= v@);
    }
    r
}

proof fn lemma_page_blocks_unchanged(
    m: Seq<(Seq<char>, BlockV)>,
    n: Seq<char>,
    b: BlockV,
    items: Seq<ItemV>,
)
    requires
        forall|i: int| 0 <= i < items.len() ==> (#[trigger] items[i]).name != n,
    ensures
        page_blocks(upsert(m, n, b), items) == page_blocks(m, items),
    decreases items.len(),
{
    if items.len() > 0 {
        lemma_lookup_upsert(m, n, b, items[0].name);
        assert(forall|i: int|
            0 <= i < items.skip(1).len() ==> (#[trigger] items.skip(1)[i]).name != n);
        lemma_page_blocks_unchanged(m, n, b, items.skip(1));
    }
}

/// A reading whose name no item of the shown page carries changes nothing in
/// the rendered frame: it sits in the aggregator's map but is not rendered
/// until a page lists it.
pub proof fn lemma_unlisted_name_not_rendered(
    m: Seq<(Seq<char>, BlockV)>,
    n: Seq<char>,
    b: BlockV,
    items: Seq<ItemV>,
    page: int,
    count: int,
)
    requires
        forall|i: int| 0 <= i < items.len() ==> (#[trigger] items[i]).name != n,
    ensures
        spec_frame(upsert(m, n, b), items, page, count) == spec_frame(m, items, page, count),
{
    lemma_page_blocks_unchanged(m, n, b, items);
}

/// An emitting step records exactly what it emitted: the frame becomes the
/// new dedup reference, and the emission time the new rate-limit reference.
pub proof fn lemma_emission_records_history(
    b: BarV,
    n: Seq<char>,
    k: BlockV,
    items: Seq<ItemV>,
    p: int,
    c: int,
    iv: u64,
    t: u64,
)
    requires
        spec_step(b, n, k, items, p, c, iv, t).1 is Some,
    ensures
        spec_step(b, n, k, items, p, c, iv, t).0.last_send == Option::Some(t),
        spec_step(b, n, k, items, p, c, iv, t).0.last_sent == spec_step(
            b,
            n,
            k,
            items,
            p,
            c,
            iv,
            t,
        ).1.unwrap(),
{
}

/// A step that emits nothing leaves the emission history untouched, so the
/// two laws below speak of the previous *emitted* frame and its time however
/// many silent steps lie in between.
pub proof fn lemma_no_emission_keeps_history(
    b: BarV,
    n: Seq<char>,
    k: BlockV,
    items: Seq<ItemV>,
    p: int,
    c: int,
    iv: u64,
    t: u64,
)
    requires
        spec_step(b, n, k, items, p, c, iv, t).1 is None,
    ensures
        spec_step(b, n, k, items, p, c, iv, t).0.last_send == b.last_send,
        spec_step(b, n, k, items, p, c, iv, t).0.last_sent == b.last_sent,
{
}

/// Dedup invariant: a step never emits the frame the history records as the
/// one last emitted — so two consecutive emitted frames are never
/// structurally equal.
pub proof fn lemma_consecutive_frames_differ(
    b: BarV,
    f1: Seq<BlockV>,
    n: Seq<char>,
    k: BlockV,
    items: Seq<ItemV>,
    p: int,
    c: int,
    iv: u64,
    t: u64,
)
    requires
        b.last_sent == f1,
        spec_step(b, n, k, items, p, c, iv, t).1 is Some,
    ensures
        spec_step(b, n, k, items, p, c, iv, t).1.unwrap() != f1,
{
}

/// Rate limit: once a frame was emitted at `t1`, a step emits again only
/// when at least the update interval has passed. Only the first frame of a
/// session is exempt, having no predecessor.
pub proof fn lemma_emission_interval(
    b: BarV,
    t1: u64,
    n: Seq<char>,
    k: BlockV,
    items: Seq<ItemV>,
    p: int,
    c: int,
    iv: u64,
    t2: u64,
)
    requires
        b.last_send == Option::Some(t1),
        spec_step(b, n, k, items, p, c, iv, t2).1 is Some,
    ensures
        (t2 as int) >= (t1 as int) + (iv as int),
{
}

/// One click event received from the bar host.
#[derive(Debug)]
pub struct Click {
    pub name: String,
    pub instance: Option<String>,
    pub x: u16,
    pub y: u16,
    pub button: u16,
    pub relative_x: u16,
    pub relative_y: u16,
    pub output_x: u16,
    pub output_y: u16,
    pub width: u16,
    pub height: u16,
    pub modifiers: Vec<String>,
}

} // verus!
