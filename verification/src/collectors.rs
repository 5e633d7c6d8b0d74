//! Typed metric readings and their rendering into display blocks: the
//! per-kind display templates, the urgency-color rule, and the icon/expand
//! rule that consults the shared UI state.

use crate::bar::{empty_block_v, Block, BlockV};
use crate::config::{ConfigItem, ModuleType};
use crate::formatter::{apply_rules, rule_views, Format, Rules};
use crate::state::{opened_views, State};
use crate::text::{
    chars_to_string, human_bytes_chars, min_sec_chars, one_dec_chars, spec_dec, spec_human_bytes,
    spec_min_sec, spec_one_dec, spec_trim_centi, spec_two_dec, trim_centi_chars, two_dec_chars,
    u64_dec_chars,
};
use std::fmt::Write;
use vstd::prelude::*;

verus! {

/// One record injected over the local socket: a name, display text, and an
/// optional percentage for the urgency rule.
#[derive(Debug)]
pub struct CommandItem {
    pub name: String,
    pub value: String,
    pub percent: Option<u64>,
}

impl Clone for CommandItem {
    /// An exact copy, field for field.
    fn clone(&self) -> (r: Self)
        ensures
            r == *self,
    {
        CommandItem {
            name: self.name.clone(),
            value: self.value.clone(),
            percent: self.percent,
        }
    }
}

/// A typed metric reading. Percentages are carried in hundredths, byte
/// figures as plain counts, timestamps as seconds and a fixed offset.
#[derive(Debug)]
pub enum CollectionType {
    Static,
    Dynamic,
    CPU { count: usize, usage_centi: u64 },
    Disk { total: usize, usage: usize },
    Memory { total: usize, usage: usize, swap_total: usize, swap_usage: usize },
    Load(u64, u64, u64),
    Time { secs: i64, offset_secs: i32 },
    Music { artist: String, title: String, pct_played: usize, time_played: usize },
    Command(CommandItem),
}

impl Clone for CollectionType {
    /// An exact copy, variant and fields alike.
    fn clone(&self) -> (r: Self)
        ensures
            r == *self,
    {
        match self {
            CollectionType::Static => CollectionType::Static,
            CollectionType::Dynamic => CollectionType::Dynamic,
            CollectionType::CPU { count, usage_centi } => CollectionType::CPU {
                count: *count,
                usage_centi: *usage_centi,
            },
            CollectionType::Disk { total, usage } => CollectionType::Disk {
                total: *total,
                usage: *usage,
            },
            CollectionType::Memory { total, usage, swap_total, swap_usage } => {
                CollectionType::Memory {
                    total: *total,
                    usage: *usage,
                    swap_total: *swap_total,
                    swap_usage: *swap_usage,
                }
            },
            CollectionType::Load(one, five, fifteen) => {
                CollectionType::Load(*one, *five, *fifteen)
            },
            CollectionType::Time { secs, offset_secs } => CollectionType::Time {
                secs: *secs,
                offset_secs: *offset_secs,
            },
            CollectionType::Music { artist, title, pct_played, time_played } => {
                CollectionType::Music {
                    artist: artist.clone(),
                    title: title.clone(),
                    pct_played: *pct_played,
                    time_played: *time_played,
                }
            },
            CollectionType::Command(c) => CollectionType::Command(c.clone()),
        }
    }
}

impl CollectionType {
    /// The configuration kind this reading belongs to.
    pub open spec fn spec_kind(&self) -> ModuleType {
        match self {
            CollectionType::Static => ModuleType::Static,
            CollectionType::Dynamic => ModuleType::Dynamic,
            CollectionType::CPU { .. } => ModuleType::CPU,
            CollectionType::Disk { .. } => ModuleType::Disk,
            CollectionType::Memory { .. } => ModuleType::Memory,
            CollectionType::Load(..) => ModuleType::Load,
            CollectionType::Time { .. } => ModuleType::Time,
            CollectionType::Music { .. } => ModuleType::Music,
            CollectionType::Command(..) => ModuleType::Command,
        }
    }
}

impl From<CollectionType> for ModuleType {
    /// The configuration kind of a reading.
    fn from(value: CollectionType) -> (r: Self) {
        match value {
            CollectionType::Static => ModuleType::Static,
            CollectionType::Dynamic => ModuleType::Dynamic,
            CollectionType::CPU { .. } => ModuleType::CPU,
            CollectionType::Disk { .. } => ModuleType::Disk,
            CollectionType::Memory { .. } => ModuleType::Memory,
            CollectionType::Load(..) => ModuleType::Load,
            CollectionType::Time { .. } => ModuleType::Time,
            CollectionType::Music { .. } => ModuleType::Music,
            CollectionType::Command(..) => ModuleType::Command,
        }
    }
}

impl vstd::std_specs::convert::FromSpecImpl<CollectionType> for ModuleType {
    open spec fn obeys_from_spec() -> bool {
        true
    }

    open spec fn from_spec(t: CollectionType) -> ModuleType {
        t.spec_kind()
    }
}

/// What the outside time formatter returns for a timestamp, an offset in
/// seconds, and a strftime-style format string: the formatted text, or
/// nothing when the offset is out of range or the format string is invalid.
pub uninterp spec fn time_text(secs: int, off: int, fmt: Seq<char>) -> Option<Seq<char>>;

/// The strftime-style format used when an item gives none.
pub open spec fn default_time_fmt() -> Seq<char> {
    "%m/%d %H:%M"@
}

/// Relies on chrono: `FixedOffset::east_opt`, `TimeZone::timestamp_opt` and
/// `DateTime::format`. Formatting a timestamp at a fixed offset — its
/// success included — is a pure function of the timestamp, the offset and
/// the format string; with the default format and an in-range offset it
/// always succeeds.
#[verifier::external_body]
fn chrono_time_text(secs: i64, off: i32, fmt: &str) -> (r: Option<String>)
    requires
        0 <= secs < 253402300800,
    ensures
        crate::config::opt_view(r) == time_text(secs as int, off as int, fmt@),
        (-86400 < off < 86400 && fmt@ == default_time_fmt()) ==> r is Some,
{
    let tz = match chrono::FixedOffset::east_opt(off) {
        Some(tz) => tz,
        None => return None,
    };
    let dt = match chrono::TimeZone::timestamp_opt(&tz, secs, 0) {
        chrono::LocalResult::Single(dt) => dt,
        _ => return None,
    };
    let mut out = String::new();
    match write!(out, "{}", dt.format(fmt)) {
        Ok(()) => Some(out),
        Err(_) => None,
    }
}

/// One reading bound to the item it renders for.
#[derive(Debug)]
pub struct Collection {
    pub name: String,
    pub value: Option<String>,
    pub format: Option<String>,
    pub collection_type: CollectionType,
    pub item: ConfigItem,
}

/// A usage count of `usage` out of `total`, as tenths of a percent rounded
/// to nearest, half up.
pub open spec fn pct_deci(usage: int, total: int) -> int {
    (2000 * usage + total) / (2 * total)
}

impl Collection {
    /// A reading the render step accepts: required values present, totals
    /// positive and not exceeded, timestamps in range.
    pub open spec fn wf(&self) -> bool {
        match self.collection_type {
            CollectionType::Static => self.value is Some,
            CollectionType::Command(..) => self.value is Some,
            CollectionType::Disk { total, usage } => 0 < total && usage <= total,
            CollectionType::Memory { total, usage, swap_total, swap_usage } => 0 < total && usage
                <= total && 0 < swap_total && swap_usage <= swap_total,
            CollectionType::Time { secs, offset_secs } => 0 <= secs < 253402300800 && -86400
                < offset_secs < 86400,
            _ => true,
        }
    }

    /// The kind-specific percentage the urgency rule compares against.
    pub open spec fn spec_pct(&self, cpus: int) -> int {
        match self.collection_type {
            CollectionType::Static => 0,
            CollectionType::Dynamic => 0,
            CollectionType::Time { .. } => 0,
            CollectionType::Command(c) => match c.percent {
                Option::Some(p) => p as int,
                Option::None => 0,
            },
            CollectionType::CPU { usage_centi, .. } => usage_centi as int / 100,
            CollectionType::Disk { total, usage } => usage as int * 100 / total as int,
            CollectionType::Memory { total, usage, .. } => usage as int * 100 / total as int,
            CollectionType::Load(one, _, _) => one as int / cpus,
            CollectionType::Music { pct_played, .. } => pct_played as int,
        }
    }

    /// The color the urgency rule picks: the item must declare thresholds
    /// and colors, and the band is the highest threshold strictly exceeded.
    pub open spec fn spec_color(&self, cpus: int) -> Option<Seq<char>> {
        match (self.item.urgency_colors, self.item.urgency) {
            (Option::Some(colors), Option::Some(u)) => {
                let pct = self.spec_pct(cpus);
                if pct > u.0 as int {
                    if pct > u.1 as int {
                        if pct > u.2 as int {
                            Option::Some(colors.2@)
                        } else {
                            Option::Some(colors.1@)
                        }
                    } else {
                        Option::Some(colors.0@)
                    }
                } else {
                    Option::None
                }
            },
            _ => Option::None,
        }
    }

    /// The template the substitution rules apply to, with each kind's
    /// default.
    pub open spec fn spec_template(&self) -> Seq<char> {
        match self.collection_type {
            CollectionType::Load(..) => match self.format {
                Option::Some(f) => f@,
                Option::None => "%1, %5, %15"@,
            },
            CollectionType::CPU { .. } => match self.format {
                Option::Some(f) => f@,
                Option::None => "cpus: %count, usage: %usage"@,
            },
            CollectionType::Memory { .. } => match self.format {
                Option::Some(f) => f@,
                Option::None => "total: %total, usage: %usage"@,
            },
            CollectionType::Disk { .. } => match self.format {
                Option::Some(f) => f@,
                Option::None => "total: %total, usage: %usage"@,
            },
            CollectionType::Music { .. } => match self.format {
                Option::Some(f) => f@,
                Option::None => "music: %artist - %title"@,
            },
            _ => Seq::empty(),
        }
    }

    /// The substitution rules each kind provides for its template.
    pub open spec fn spec_rules(&self) -> Seq<(Seq<char>, Seq<char>)> {
        match self.collection_type {
            CollectionType::Load(one, five, fifteen) => seq![
                ("%15"@, spec_trim_centi(fifteen as nat)),
                ("%5"@, spec_trim_centi(five as nat)),
                ("%1"@, spec_trim_centi(one as nat)),
            ],
            CollectionType::CPU { count, usage_centi } => seq![
                ("%count"@, spec_dec(count as nat)),
                ("%usage"@, spec_two_dec(usage_centi as nat)),
            ],
            CollectionType::Memory { total, usage, swap_total, swap_usage } => seq![
                ("%total"@, spec_human_bytes(total as nat)),
                ("%usage"@, spec_human_bytes(usage as nat)),
                ("%swap_total"@, spec_human_bytes(swap_total as nat)),
                ("%swap_usage"@, spec_human_bytes(swap_usage as nat)),
                (
                    "%pct_swap"@,
                    spec_one_dec(pct_deci(swap_usage as int, swap_total as int) as nat),
                ),
                ("%pct"@, spec_one_dec(pct_deci(usage as int, total as int) as nat)),
            ],
            CollectionType::Disk { total, usage } => seq![
                ("%total"@, spec_human_bytes(total as nat)),
                ("%usage"@, spec_human_bytes(usage as nat)),
                ("%pct"@, spec_one_dec(pct_deci(usage as int, total as int) as nat)),
            ],
            CollectionType::Music { artist, title, pct_played, time_played } => seq![
                ("%artist"@, artist@),
                ("%title"@, title@),
                ("%pct_played"@, spec_dec(pct_played as nat)),
                ("%time"@, spec_min_sec(time_played as nat)),
            ],
            _ => Seq::empty(),
        }
    }

    /// The fully formatted display text of every kind except `Time`, whose
    /// text comes from the outside time formatter.
    pub open spec fn spec_formatted(&self) -> Seq<char> {
        match self.collection_type {
            CollectionType::Static => match self.value {
                Option::Some(v) => v@,
                Option::None => Seq::empty(),
            },
            CollectionType::Dynamic => Seq::empty(),
            CollectionType::Command(..) => {
                let v = match self.value {
                    Option::Some(v) => v@,
                    Option::None => Seq::empty(),
                };
                match self.item.icon {
                    Option::Some(icon) => icon@ + ": "@ + v,
                    Option::None => v,
                }
            },
            _ => apply_rules(self.spec_template(), self.spec_rules()),
        }
    }

    /// The format string handed to the time formatter.
    pub open spec fn spec_time_fmt(&self) -> Seq<char> {
        match self.format {
            Option::Some(f) => f@,
            Option::None => default_time_fmt(),
        }
    }

    /// The rendered full text before the icon/expand rule: the formatted
    /// template for every kind; for `Time` the outside formatter's text,
    /// which falls back to empty only when the format string makes the
    /// formatter fail.
    pub open spec fn spec_base_text(&self) -> Seq<char> {
        match self.collection_type {
            CollectionType::Time { secs, offset_secs } => match time_text(
                secs as int,
                offset_secs as int,
                self.spec_time_fmt(),
            ) {
                Option::Some(t) => t,
                Option::None => Seq::empty(),
            },
            _ => self.spec_formatted(),
        }
    }

    /// A reading for `item`, carrying its raw value and format; rejected
    /// exactly when the render step could not accept it: a static or command
    /// item without a value, a disk or memory reading with a zero or
    /// exceeded total, or a timestamp out of range.
    pub fn new(item: ConfigItem, collection_type: CollectionType) -> (r: Option<Collection>)
        ensures
            match r {
                Option::Some(c) => c.wf() && c.name@ == item.name@ && c.value
                    == item.value && c.format == item.format && c.collection_type
                    == collection_type && c.item == item,
                Option::None => !(Collection {
                    name: item.name,
                    value: item.value,
                    format: item.format,
                    collection_type: collection_type,
                    item: item,
                }).wf(),
            },
    {
        let ok = match &collection_type {
            CollectionType::Static => item.value.is_some(),
            CollectionType::Command(..) => item.value.is_some(),
            CollectionType::Disk { total, usage } => 0 < *total && *usage <= *total,
            CollectionType::Memory { total, usage, swap_total, swap_usage } => 0 < *total && *usage
                <= *total && 0 < *swap_total && *swap_usage <= *swap_total,
            CollectionType::Time { secs, offset_secs } => 0 <= *secs && *secs < 253402300800
                && -86400 < *offset_secs && *offset_secs < 86400,
            _ => true,
        };
        if ok {
            Option::Some(
                Collection {
                    name: item.name.clone(),
                    value: clone_opt_string(&item.value),
                    format: clone_opt_string(&item.format),
                    collection_type,
                    item,
                },
            )
        } else {
            Option::None
        }
    }

    /// A reading for an externally injected record: rendered as plain text
    /// under the record's own name, with no display configuration.
    pub fn from_command(command: CommandItem) -> (r: Collection)
        ensures
            r.wf(),
            r.name@ == command.name@,
            r.value == Option::Some(command.value),
            r.format is None,
            r.collection_type == CollectionType::Command(command),
            r.item.icon is None,
            r.item.urgency is None,
            r.item.urgency_colors is None,
    {
        Collection {
            name: command.name.clone(),
            value: Option::Some(command.value.clone()),
            format: Option::None,
            collection_type: CollectionType::Command(command.clone()),
            item: ConfigItem {
                name: command.name.clone(),
                typ: ModuleType::Command,
                value: Option::None,
                format: Option::None,
                urgency: Option::None,
                urgency_colors: Option::None,
                icon: Option::None,
            },
        }
    }

    /// The reading's item name.
    pub fn name(&self) -> (r: String)
        ensures
            r@ == self.name@,
    {
        self.name.clone()
    }

    /// The reading itself.
    pub fn collection_type(&self) -> (r: CollectionType)
        ensures
            r == self.collection_type,
    {
        self.collection_type.clone()
    }

    /// The template the item asked for, or the given default.
    fn chosen_template(&self, default: &str) -> (r: String)
        ensures
            r@ == match self.format {
                Option::Some(f) => f@,
                Option::None => default@,
            },
    {
        match &self.format {
            Option::Some(f) => f.clone(),
            Option::None => default.to_owned(),
        }
    }

    /// The kind-specific percentage the urgency rule compares against.
    fn compute_pct(&self, cpus: usize) -> (r: u64)
        requires
            self.wf(),
            1 <= cpus,
        ensures
            r as int == self.spec_pct(cpus as int),
    {
        match &self.collection_type {
            CollectionType::Static => 0,
            CollectionType::Dynamic => 0,
            CollectionType::Time { .. } => 0,
            CollectionType::Command(c) => match c.percent {
                Option::Some(p) => p,
                Option::None => 0,
            },
            CollectionType::CPU { usage_centi, .. } => *usage_centi / 100,
            CollectionType::Disk { total, usage } => pct_whole(*usage, *total),
            CollectionType::Memory { total, usage, .. } => pct_whole(*usage, *total),
            CollectionType::Load(one, _, _) => *one / (cpus as u64),
            CollectionType::Music { pct_played, .. } => *pct_played as u64,
        }
    }

    /// The formatted text and rules of every kind: the time formatter's text
    /// for `Time`, each other kind's template paired with its substitutions.
    fn get_formatter(&self) -> (f: Format)
        requires
            self.wf(),
        ensures
            apply_rules(f@.0, f@.1) == self.spec_base_text(),
    {
        let empty: Rules = Vec::new();
        proof {
            assert(rule_views(empty@) =~= Seq::<(Seq<char>, Seq<char>)>::empty());
        }
        match &self.collection_type {
            CollectionType::Static => {
                let v = match &self.value {
                    Option::Some(v) => v.clone(),
                    Option::None => String::new(),
                };
                Format::new(v, empty)
            },
            CollectionType::Dynamic => Format::new(String::new(), empty),
            CollectionType::Command(..) => {
                let v = match &self.value {
                    Option::Some(v) => v.clone(),
                    Option::None => String::new(),
                };
                let text = match &self.item.icon {
                    Option::Some(icon) => {
                        let mut t = icon.clone();
                        t.append(": ");
                        t.append(v.as_str());
                        t
                    },
                    Option::None => v,
                };
                Format::new(text, empty)
            },
            CollectionType::Time { secs, offset_secs } => {
                let fmt = self.chosen_template("%m/%d %H:%M");
                let text = match chrono_time_text(*secs, *offset_secs, fmt.as_str()) {
                    Option::Some(t) => t,
                    Option::None => String::new(),
                };
                proof {
                    if self.format is None {
                        assert(fmt@ == default_time_fmt());
                    }
                }
                Format::new(text, empty)
            },
            CollectionType::Load(one, five, fifteen) => {
                let mut rules: Rules = Vec::new();
                rules.push(("%15".to_owned(), chars_to_string(&trim_centi_chars(
                    *fifteen as u128,
                ))));
                rules.push(("%5".to_owned(), chars_to_string(&trim_centi_chars(*five as u128))));
                rules.push(("%1".to_owned(), chars_to_string(&trim_centi_chars(*one as u128))));
                proof {
                    assert(rule_views(rules@) =~= self.spec_rules());
                }
                Format::new(self.chosen_template("%1, %5, %15"), rules)
            },
            CollectionType::CPU { count, usage_centi } => {
                let mut rules: Rules = Vec::new();
                rules.push(("%count".to_owned(), chars_to_string(&u64_dec_chars(*count as u64))));
                rules.push(("%usage".to_owned(), chars_to_string(&two_dec_chars(*usage_centi))));
                proof {
                    assert(rule_views(rules@) =~= self.spec_rules());
                }
                Format::new(self.chosen_template("cpus: %count, usage: %usage"), rules)
            },
            CollectionType::Memory { total, usage, swap_total, swap_usage } => {
                let mut rules: Rules = Vec::new();
                rules.push(("%total".to_owned(), chars_to_string(&human_bytes_chars(
                    *total as u64,
                ))));
                rules.push(("%usage".to_owned(), chars_to_string(&human_bytes_chars(
                    *usage as u64,
                ))));
                rules.push(("%swap_total".to_owned(), chars_to_string(&human_bytes_chars(
                    *swap_total as u64,
                ))));
                rules.push(("%swap_usage".to_owned(), chars_to_string(&human_bytes_chars(
                    *swap_usage as u64,
                ))));
                rules.push(("%pct_swap".to_owned(), chars_to_string(&one_dec_chars(pct_tenths(
                    *swap_usage,
                    *swap_total,
                )))));
                rules.push(("%pct".to_owned(), chars_to_string(&one_dec_chars(pct_tenths(
                    *usage,
                    *total,
                )))));
                proof {
                    assert(rule_views(rules@) =~= self.spec_rules());
                }
                Format::new(self.chosen_template("total: %total, usage: %usage"), rules)
            },
            CollectionType::Disk { total, usage } => {
                let mut rules: Rules = Vec::new();
                rules.push(("%total".to_owned(), chars_to_string(&human_bytes_chars(
                    *total as u64,
                ))));
                rules.push(("%usage".to_owned(), chars_to_string(&human_bytes_chars(
                    *usage as u64,
                ))));
                rules.push(("%pct".to_owned(), chars_to_string(&one_dec_chars(pct_tenths(
                    *usage,
                    *total,
                )))));
                proof {
                    assert(rule_views(rules@) =~= self.spec_rules());
                }
                Format::new(self.chosen_template("total: %total, usage: %usage"), rules)
            },
            CollectionType::Music { artist, title, pct_played, time_played } => {
                let mut rules: Rules = Vec::new();
                rules.push(("%artist".to_owned(), artist.clone()));
                rules.push(("%title".to_owned(), title.clone()));
                rules.push(("%pct_played".to_owned(), chars_to_string(&u64_dec_chars(
                    *pct_played as u64,
                ))));
                rules.push(("%time".to_owned(), chars_to_string(&min_sec_chars(
                    *time_played as u64,
                ))));
                proof {
                    assert(rule_views(rules@) =~= self.spec_rules());
                }
                Format::new(self.chosen_template("music: %artist - %title"), rules)
            },
        }
    }

    /// Render the reading into a protocol block: the item's name, the
    /// urgency color when a threshold is exceeded, and the formatted text —
    /// replaced by the bare icon while the item is collapsed.
    pub fn to_block(&self, state: &State, cpus: usize) -> (r: Block)
        requires
            self.wf(),
            1 <= cpus,
        ensures
            r@ == (BlockV {
                full_text: r@.full_text,
                color: self.spec_color(cpus as int),
                name: Option::Some(self.name@),
                ..empty_block_v()
            }),
            match self.item.icon {
                Option::Some(icon) => {
                    if opened_views(state.opened@).contains(self.name@) {
                        r@.full_text == self.spec_base_text()
                    } else {
                        r@.full_text == icon@
                    }
                },
                Option::None => r@.full_text == self.spec_base_text(),
            },
    {
        let mut block = Block::default();
        let pct = self.compute_pct(cpus);
        let urgency: Option<String> = match (&self.item.urgency_colors, &self.item.urgency) {
            (Option::Some(colors), Option::Some(u)) => {
                if pct > u.0 as u64 {
                    if pct > u.1 as u64 {
                        if pct > u.2 as u64 {
                            Option::Some(colors.2.clone())
                        } else {
                            Option::Some(colors.1.clone())
                        }
                    } else {
                        Option::Some(colors.0.clone())
                    }
                } else {
                    Option::None
                }
            },
            _ => Option::None,
        };
        if let Option::Some(urgency) = urgency {
            block.color = Option::Some(urgency);
        }
        block.name = Option::Some(self.name());
        let expanded = state.is_opened(&self.name);
        match &self.item.icon {
            Option::Some(icon) => {
                if expanded {
                    block.full_text = self.get_formatter().format();
                } else {
                    block.full_text = icon.clone();
                }
            },
            Option::None => {
                block.full_text = self.get_formatter().format();
            },
        }
        block
    }
}

/// `usage` out of `total` as a whole percentage, rounded down.
fn pct_whole(usage: usize, total: usize) -> (r: u64)
    requires
        0 < total,
        usage <= total,
    ensures
        r as int == usage as int * 100 / total as int,
{
    let u = usage as u128;
    let t = total as u128;
    let v = u * 100 / t;
    proof {
        assert((u as int) * 100 / (t as int) <= 100) by (nonlinear_arith)
            requires
                (u as int) <= (t as int),
                0 < (t as int),
        ;
    }
    v as u64
}

/// `usage` out of `total` in tenths of a percent, rounded to nearest, half
/// up.
fn pct_tenths(usage: usize, total: usize) -> (r: u64)
    requires
        0 < total,
        usage <= total,
    ensures
        r as int == pct_deci(usage as int, total as int),
{
    let u = usage as u128;
    let t = total as u128;
    let v = (2000 * u + t) / (2 * t);
    proof {
        assert((2000 * (u as int) + (t as int)) / (2 * (t as int)) <= 1001) by (nonlinear_arith)
            requires
                (u as int) <= (t as int),
                0 < (t as int),
        ;
    }
    v as u64
}

fn clone_opt_string(o: &Option<String>) -> (r: Option<String>)
    ensures
        r == *o,
{
    match o {
        Option::None => Option::None,
        Option::Some(s) => Option::Some(s.clone()),
    }
}

} // verus!
