//! The read-only configuration the pipeline consumes: ordered pages of items,
//! each item naming a metric kind and how to render it, plus the global
//! update interval.

use vstd::prelude::*;

verus! {

/// The metric kind an item samples and renders.
#[derive(Debug, Clone, Copy, PartialEq, Eq, Structural)]
pub enum ModuleType {
    Static,
    Dynamic,
    CPU,
    Disk,
    Memory,
    Load,
    Time,
    Music,
    Command,
}

/// One configured item: a named slot with its kind and display settings.
#[derive(Debug)]
pub struct ConfigItem {
    pub name: String,
    pub typ: ModuleType,
    pub value: Option<String>,
    pub format: Option<String>,
    pub urgency: Option<(u8, u8, u8)>,
    pub urgency_colors: Option<(String, String, String)>,
    pub icon: Option<String>,
}

/// The mathematical value of a `ConfigItem`.
pub ghost struct ItemV {
    pub name: Seq<char>,
    pub typ: ModuleType,
    pub value: Option<Seq<char>>,
    pub format: Option<Seq<char>>,
    pub urgency: Option<(u8, u8, u8)>,
    pub urgency_colors: Option<(Seq<char>, Seq<char>, Seq<char>)>,
    pub icon: Option<Seq<char>>,
}

/// The view of an optional string.
pub open spec fn opt_view(o: Option<String>) -> Option<Seq<char>> {
    match o {
        Option::None => Option::None,
        Option::Some(s) => Option::Some(s@),
    }
}

impl View for ConfigItem {
    type V = ItemV;

    open spec fn view(&self) -> ItemV {
        ItemV {
            name: self.name@,
            typ: self.typ,
            value: opt_view(self.value),
            format: opt_view(self.format),
            urgency: self.urgency,
            urgency_colors: match self.urgency_colors {
                Option::None => Option::None,
                Option::Some(c) => Option::Some((c.0@, c.1@, c.2@)),
            },
            icon: opt_view(self.icon),
        }
    }
}

fn clone_opt_string(o: &Option<String>) -> (r: Option<String>)
    ensures
        r == *o,
{
    match o {
        Option::None => Option::None,
        Option::Some(s) => Option::Some(s.clone()),
    }
}

impl Clone for ConfigItem {
    /// An exact copy, field for field.
    fn clone(&self) -> (r: Self)
        ensures
            r == *self,
    {
        ConfigItem {
            name: self.name.clone(),
            typ: self.typ,
            value: clone_opt_string(&self.value),
            format: clone_opt_string(&self.format),
            urgency: self.urgency,
            urgency_colors: match &self.urgency_colors {
                Option::None => Option::None,
                Option::Some(c) => Option::Some((c.0.clone(), c.1.clone(), c.2.clone())),
            },
            icon: clone_opt_string(&self.icon),
        }
    }
}

/// One page: the ordered items shown together.
#[derive(Debug)]
pub struct ConfigPage(Vec<ConfigItem>);

impl View for ConfigPage {
    type V = Seq<ItemV>;

    closed spec fn view(&self) -> Seq<ItemV> {
        self.0@.map(|i: int, item: ConfigItem| item@)
    }
}

fn clone_items(items: &Vec<ConfigItem>) -> (r: Vec<ConfigItem>)
    ensures
        r@ == items@,
{
    let mut r: Vec<ConfigItem> = Vec::new();
    let mut i: usize = 0;
    while i < items.len()
        invariant
            i <= items@.len(),
            r@ == items@.take(i as int),
        decreases items@.len() - i,
    {
        r.push(items[i].clone());
        proof {
            assert(items@.take(i as int).push(items@[i as int]) =~= items@.take(i as int + 1));
        }
        i = i + 1;
    }
    proof {
        assert(items@.take(items@.len() as int) =~= items@);
    }
    r
}

impl Clone for ConfigPage {
    /// An exact copy, item for item.
    fn clone(&self) -> (r: Self)
        ensures
            r@ == self@,
    {
        ConfigPage(clone_items(&self.0))
    }
}

impl ConfigPage {
    pub fn new(items: Vec<ConfigItem>) -> (r: ConfigPage)
        ensures
            r@ == items@.map(|i: int, item: ConfigItem| item@),
    {
        ConfigPage(items)
    }

    /// The page's items, in display order.
    pub fn items(&self) -> (r: Vec<ConfigItem>)
        ensures
            r@.map(|i: int, item: ConfigItem| item@) == self@,
    {
        clone_items(&self.0)
    }

    pub fn len(&self) -> (r: usize)
        ensures
            r == self@.len(),
    {
        self.0.len()
    }

    pub fn item_at(&self, i: usize) -> (r: &ConfigItem)
        requires
            i < self@.len(),
        ensures
            r@ == self@[i as int],
    {
        &self.0[i]
    }
}

/// The mathematical value of a `Config`.
pub ghost struct ConfigV {
    pub pages: Seq<Seq<ItemV>>,
    pub update_interval_ms: Option<u64>,
}

/// The whole configuration: ordered pages and the optional update interval,
/// in milliseconds.
#[derive(Debug)]
pub struct Config {
    pages: Vec<ConfigPage>,
    update_interval_ms: Option<u64>,
}

impl View for Config {
    type V = ConfigV;

    closed spec fn view(&self) -> ConfigV {
        ConfigV {
            pages: self.pages@.map(|i: int, p: ConfigPage| p@),
            update_interval_ms: self.update_interval_ms,
        }
    }
}

/// The interval the aggregator emits at when the configuration names none.
pub const DEFAULT_UPDATE_INTERVAL_MS: u64 = 1000;

impl Clone for Config {
    /// An exact copy, page for page.
    fn clone(&self) -> (r: Self)
        ensures
            r@ == self@,
    {
        Config { pages: self.pages(), update_interval_ms: self.update_interval_ms }
    }
}

impl Config {
    pub fn new(pages: Vec<ConfigPage>, update_interval_ms: Option<u64>) -> (r: Config)
        ensures
            r@.pages == pages@.map(|i: int, p: ConfigPage| p@),
            r@.update_interval_ms == update_interval_ms,
    {
        Config { pages, update_interval_ms }
    }

    /// The pages, in order.
    pub fn pages(&self) -> (r: Vec<ConfigPage>)
        ensures
            r@.map(|i: int, p: ConfigPage| p@) == self@.pages,
    {
        let mut r: Vec<ConfigPage> = Vec::new();
        let mut i: usize = 0;
        while i < self.pages.len()
            invariant
                i <= self.pages@.len(),
                r@.len() == i,
                forall|k: int| 0 <= k < i ==> #[trigger] r@[k]@ == self.pages@[k]@,
            decreases self.pages@.len() - i,
        {
            r.push(self.pages[i].clone());
            i = i + 1;
        }
        proof {
            assert(r@.map(|i: int, p: ConfigPage| p@) =~= self@.pages);
        }
        r
    }

    pub fn page_count(&self) -> (r: usize)
        ensures
            r == self@.pages.len(),
    {
        self.pages.len()
    }

    pub fn page_at(&self, i: usize) -> (r: &ConfigPage)
        requires
            i < self@.pages.len(),
        ensures
            r@ == self@.pages[i as int],
    {
        &self.pages[i]
    }

    /// The configured update interval in milliseconds, or the default.
    pub fn update_interval(&self) -> (r: u64)
        ensures
            r == match self@.update_interval_ms {
                Option::Some(ms) => ms,
                Option::None => DEFAULT_UPDATE_INTERVAL_MS,
            },
    {
        match self.update_interval_ms {
            Option::Some(ms) => ms,
            Option::None => DEFAULT_UPDATE_INTERVAL_MS,
        }
    }
}

} // verus!
