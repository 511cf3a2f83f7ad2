use vstd::prelude::*;

use crate::domain::{RyaType, RyaTypeModel};
use crate::fluo_pcj::sparql::{
    body_spec, extract_filters, filter_model, filter_models, filters_spec, parse_patterns, parse_select_vars,
    pattern_models, patterns_spec, select_vars_spec, sparql_body, FilterExpression, FilterModel,
};
use crate::fluo_pcj::{
    fluo_pattern_model, term_model, FluoPatternModel, FluoStatementPattern, FluoTerm, FluoTermModel, URI_TYPE,
};
use crate::text::{decimal, push_char, push_str, signed_decimal, to_owned, views};
use crate::words::join_spec;
use crate::fluo_pcj::app::{count_of, QueryReport};
use crate::fluo_pcj::metadata::{
    join_type_name, FilterMetadataModel, JoinMetadataModel, QueryMetadataModel, StatementPatternMetadataModel,
};
use crate::fluo_pcj::plan::{filter_meta_models, join_models, sp_models};
use crate::pcj::orders::{sorted_order_set, sorted_orders};
use crate::pcj::{orders_view, PcjMetadata, VARIABLE_ORDER_DELIMITER};

verus! {

// ---------------------------------------------------------------------------
// Widths
// ---------------------------------------------------------------------------

/// How many bytes UTF-8 takes for a character.
pub open spec fn char_width(c: char) -> nat {
    if (c as u32) < 0x80 {
        1
    } else if (c as u32) < 0x800 {
        2
    } else if (c as u32) < 0x10000 {
        3
    } else {
        4
    }
}

/// How many bytes UTF-8 takes for a text.
pub open spec fn utf8_len(s: Seq<char>) -> nat
    decreases s.len(),
{
    if s.len() == 0 {
        0
    } else {
        utf8_len(s.drop_last()) + char_width(s.last())
    }
}

proof fn lemma_utf8_len_bound(s: Seq<char>)
    ensures
        utf8_len(s) <= 4 * s.len(),
    decreases s.len(),
{
    if s.len() > 0 {
        lemma_utf8_len_bound(s.drop_last());
    }
}

/// The UTF-8 length of a text.
fn utf8_length(s: &str) -> (r: u128)
    ensures
        r == utf8_len(s@),
        r <= 0x4_0000_0000_0000_0000,
{
    let cs = crate::text::chars_of(s);
    let mut total: u128 = 0;
    let mut i: usize = 0;
    while i < cs.len()
        invariant
            i <= cs.len(),
            cs@ == s@,
            total == utf8_len(cs@.take(i as int)),
        decreases cs.len() - i,
    {
        proof {
            lemma_utf8_len_bound(cs@.take(i as int));
            assert(cs@.take(i + 1).drop_last() =~= cs@.take(i as int));
        }
        let code = cs[i] as u32;
        let w: u128 = if code < 0x80 {
            1
        } else if code < 0x800 {
            2
        } else if code < 0x10000 {
            3
        } else {
            4
        };
        total = total + w;
        i = i + 1;
    }
    assert(cs@.take(i as int) =~= cs@);
    proof {
        lemma_utf8_len_bound(cs@);
    }
    total
}

/// The largest of some numbers, if any.
pub open spec fn max_of(s: Seq<nat>) -> Option<nat>
    decreases s.len(),
{
    if s.len() == 0 {
        None
    } else {
        match max_of(s.drop_last()) {
            None => Some(s.last()),
            Some(m) => Some(if m >= s.last() { m } else { s.last() }),
        }
    }
}

// ---------------------------------------------------------------------------
// Reports
// ---------------------------------------------------------------------------

/// An item of a report: its title and its value lines.
pub type ItemModel = (Seq<char>, Seq<Seq<char>>);

/// A titled entry of a report, with zero or more value lines.
pub struct ReportItem {
    title: String,
    value_lines: Vec<String>,
}

impl ReportItem {
    pub closed spec fn model(self) -> ItemModel {
        (self.title@, views(self.value_lines@))
    }

    /// An item with a title and no value.
    pub fn new(title: &str) -> (r: Self)
        ensures
            r.model() == (title@, Seq::<Seq<char>>::empty()),
    {
        let r = ReportItem { title: to_owned(title), value_lines: Vec::new() };
        assert(views(r.value_lines@) =~= Seq::<Seq<char>>::empty());
        r
    }

    /// An item with a title and one value line.
    pub fn with_value(title: &str, value: &str) -> (r: Self)
        ensures
            r.model() == (title@, seq![value@]),
    {
        let mut lines: Vec<String> = Vec::new();
        lines.push(to_owned(value));
        let r = ReportItem { title: to_owned(title), value_lines: lines };
        assert(views(r.value_lines@) =~= seq![value@]);
        r
    }

    /// An item with a title and the given value lines.
    pub fn with_lines(title: &str, value_lines: Vec<String>) -> (r: Self)
        ensures
            r.model() == (title@, views(value_lines@)),
    {
        ReportItem { title: to_owned(title), value_lines }
    }
}

pub open spec fn item_models(v: Seq<ReportItem>) -> Seq<ItemModel> {
    v.map_values(|i: ReportItem| i.model())
}

/// A report: a table of titled items.
pub struct Report {
    items: Vec<ReportItem>,
}

/// Builds a report item by item.
pub struct ReportBuilder {
    items: Vec<ReportItem>,
}

impl Report {
    pub closed spec fn items_view(self) -> Seq<ItemModel> {
        item_models(self.items@)
    }

    /// A builder with no items.
    pub fn builder() -> (r: ReportBuilder)
        ensures
            r.items_view() == Seq::<ItemModel>::empty(),
    {
        let r = ReportBuilder { items: Vec::new() };
        assert(item_models(r.items@) =~= Seq::<ItemModel>::empty());
        r
    }
}

impl ReportBuilder {
    pub closed spec fn items_view(self) -> Seq<ItemModel> {
        item_models(self.items@)
    }

    /// The builder with one more item at the end.
    pub fn append_item(self, item: ReportItem) -> (r: Self)
        ensures
            r.items_view() == self.items_view().push(item.model()),
    {
        let mut items = self.items;
        let ghost before = item_models(items@);
        items.push(item);
        assert(item_models(items@) =~= before.push(item.model()));
        ReportBuilder { items }
    }

    /// The report of the items appended so far.
    pub fn build(self) -> (r: Report)
        ensures
            r.items_view() == self.items_view(),
    {
        Report { items: self.items }
    }
}

/// Every value line of the items, in order.
pub open spec fn all_lines(items: Seq<ItemModel>) -> Seq<Seq<char>>
    decreases items.len(),
{
    if items.len() == 0 {
        Seq::empty()
    } else {
        all_lines(items.drop_last()) + items.last().1
    }
}

/// The width of the title column: the longest title in bytes, or 1 with no items.
pub open spec fn title_width(items: Seq<ItemModel>) -> nat {
    match max_of(items.map_values(|i: ItemModel| utf8_len(i.0))) {
        Some(m) => m,
        None => 1,
    }
}

/// The width of the value column: the longest value line in bytes, or 1 with no lines.
pub open spec fn value_width(items: Seq<ItemModel>) -> nat {
    match max_of(all_lines(items).map_values(|l: Seq<char>| utf8_len(l))) {
        Some(m) => m,
        None => 1,
    }
}

/// `n` copies of a character.
pub open spec fn repeat_char(c: char, n: nat) -> Seq<char> {
    Seq::new(n, |i: int| c)
}

/// A text padded on the right with spaces to `w` characters.
pub open spec fn padded(s: Seq<char>, w: nat) -> Seq<char> {
    if s.len() < w {
        s + repeat_char(' ', (w - s.len()) as nat)
    } else {
        s
    }
}

/// One line of the table.
pub open spec fn table_row(t: Seq<char>, v: Seq<char>, wt: nat, wv: nat) -> Seq<char> {
    "| "@ + padded(t, wt) + " | "@ + padded(v, wv) + " |\n"@
}

/// The lines of one item: its title beside its first value line, then its other value lines.
pub open spec fn item_rows(item: ItemModel, wt: nat, wv: nat) -> Seq<char>
    decreases item.1.len(),
{
    if item.1.len() <= 1 {
        table_row(item.0, if item.1.len() == 0 { Seq::empty() } else { item.1[0] }, wt, wv)
    } else {
        item_rows((item.0, item.1.drop_last()), wt, wv) + table_row(Seq::empty(), item.1.last(), wt, wv)
    }
}

/// The rows of the items in turn.
pub open spec fn items_rows(items: Seq<ItemModel>, wt: nat, wv: nat) -> Seq<char>
    decreases items.len(),
{
    if items.len() == 0 {
        Seq::empty()
    } else {
        items_rows(items.drop_last(), wt, wv) + item_rows(items.last(), wt, wv)
    }
}

/// The text of a report: a line of dashes, a row per value line, a line of dashes.
pub open spec fn report_text(items: Seq<ItemModel>) -> Seq<char> {
    let wt = title_width(items);
    let wv = value_width(items);
    let dash = repeat_char('-', 2 + wt + 3 + wv + 2) + "\n"@;
    dash + items_rows(items, wt, wv) + dash
}

fn push_repeat(out: &mut String, c: char, n: u128)
    ensures
        final(out)@ == old(out)@ + repeat_char(c, n as nat),
{
    let ghost start = out@;
    let mut i: u128 = 0;
    while i < n
        invariant
            i <= n,
            out@ == start + repeat_char(c, i as nat),
        decreases n - i,
    {
        push_char(out, c);
        assert(out@ =~= start + repeat_char(c, (i + 1) as nat));
        i = i + 1;
    }
}

fn push_padded(out: &mut String, s: &str, w: u128)
    ensures
        final(out)@ == old(out)@ + padded(s@, w as nat),
{
    let n = crate::text::chars_of(s).len();
    push_str(out, s);
    if (n as u128) < w {
        push_repeat(out, ' ', w - n as u128);
    }
    assert(final(out)@ =~= old(out)@ + padded(s@, w as nat)) by {
        assert(out@ == old(out)@ + s@ + (if s@.len() < w { repeat_char(' ', (w - s@.len()) as nat) } else { Seq::empty() }));
    }
}

fn push_row(out: &mut String, t: &str, v: &str, wt: u128, wv: u128)
    ensures
        final(out)@ == old(out)@ + table_row(t@, v@, wt as nat, wv as nat),
{
    let ghost start = out@;
    push_str(out, "| ");
    push_padded(out, t, wt);
    push_str(out, " | ");
    push_padded(out, v, wv);
    push_str(out, " |\n");
    assert(out@ =~= start + table_row(t@, v@, wt as nat, wv as nat));
}

impl Report {
    /// The table of the report, as text.
    pub fn to_string(&self) -> (r: String)
        ensures
            r@ == report_text(self.items_view()),
    {
        let ghost items = self.items_view();
        // The widths of the two columns.
        let mut wt: Option<u128> = None;
        let mut wv: Option<u128> = None;
        let mut i: usize = 0;
        while i < self.items.len()
            invariant
                i <= self.items.len(),
                items == item_models(self.items@),
                match wt {
                    Some(x) => max_of(items.take(i as int).map_values(|x: ItemModel| utf8_len(x.0))) == Some(x as nat)
                        && x <= 0x4_0000_0000_0000_0000,
                    None => max_of(items.take(i as int).map_values(|x: ItemModel| utf8_len(x.0))) is None,
                },
                match wv {
                    Some(x) => max_of(all_lines(items.take(i as int)).map_values(|l: Seq<char>| utf8_len(l))) == Some(
                        x as nat,
                    ) && x <= 0x4_0000_0000_0000_0000,
                    None => max_of(all_lines(items.take(i as int)).map_values(|l: Seq<char>| utf8_len(l))) is None,
                },
            decreases self.items.len() - i,
        {
            assert(items.take(i + 1).drop_last() =~= items.take(i as int));
            assert(items.take(i + 1).map_values(|x: ItemModel| utf8_len(x.0)).drop_last() =~= items.take(
                i as int,
            ).map_values(|x: ItemModel| utf8_len(x.0)));
            let t = utf8_length(self.items[i].title.as_str());
            wt = match wt {
                None => Some(t),
                Some(m) => Some(if m >= t { m } else { t }),
            };
            let ghost prev_lines = all_lines(items.take(i as int));
            let ghost own = items[i as int].1;
            assert(prev_lines + own.take(0) =~= prev_lines);
            let mut j: usize = 0;
            while j < self.items[i].value_lines.len()
                invariant
                    i < self.items.len(),
                    j <= self.items[i as int].value_lines@.len(),
                    own == views(self.items[i as int].value_lines@),
                    match wv {
                        Some(x) => max_of((prev_lines + own.take(j as int)).map_values(|l: Seq<char>| utf8_len(l)))
                            == Some(x as nat) && x <= 0x4_0000_0000_0000_0000,
                        None => max_of((prev_lines + own.take(j as int)).map_values(|l: Seq<char>| utf8_len(l))) is None,
                    },
                decreases self.items[i as int].value_lines@.len() - j,
            {
                let l = utf8_length(self.items[i].value_lines[j].as_str());
                assert((prev_lines + own.take(j + 1)).drop_last() =~= prev_lines + own.take(j as int));
                assert((prev_lines + own.take(j + 1)).map_values(|l: Seq<char>| utf8_len(l)).drop_last() =~= (
                prev_lines + own.take(j as int)).map_values(|l: Seq<char>| utf8_len(l)));
                wv = match wv {
                    None => Some(l),
                    Some(m) => Some(if m >= l { m } else { l }),
                };
                j = j + 1;
            }
            assert(own.take(j as int) =~= own);
            assert(all_lines(items.take(i + 1)) =~= prev_lines + own);
            i = i + 1;
        }
        assert(items.take(i as int) =~= items);
        let wt: u128 = match wt {
            Some(m) => m,
            None => 1,
        };
        let wv: u128 = match wv {
            Some(m) => m,
            None => 1,
        };
        let mut out = String::new();
        push_repeat(&mut out, '-', 2 + wt + 3 + wv + 2);
        push_str(&mut out, "\n");
        let ghost dash = out@;
        assert(dash =~= repeat_char('-', (2 + wt + 3 + wv + 2) as nat) + "\n"@);
        let mut k: usize = 0;
        while k < self.items.len()
            invariant
                k <= self.items.len(),
                items == item_models(self.items@),
                out@ == dash + items_rows(items.take(k as int), wt as nat, wv as nat),
            decreases self.items.len() - k,
        {
            let item = &self.items[k];
            let ghost base = out@;
            let ghost m = items[k as int];
            if item.value_lines.len() == 0 {
                push_row(&mut out, item.title.as_str(), "", wt, wv);
                proof {
                    reveal_strlit("");
                }
            } else {
                push_row(&mut out, item.title.as_str(), item.value_lines[0].as_str(), wt, wv);
                let mut j: usize = 1;
                while j < item.value_lines.len()
                    invariant
                        1 <= j <= item.value_lines@.len(),
                        m == item.model(),
                        out@ == base + item_rows((m.0, m.1.take(j as int)), wt as nat, wv as nat),
                    decreases item.value_lines@.len() - j,
                {
                    push_row(&mut out, "", item.value_lines[j].as_str(), wt, wv);
                    proof {
                        reveal_strlit("");
                        assert(m.1.take(j + 1).drop_last() =~= m.1.take(j as int));
                    }
                    j = j + 1;
                }
                assert(m.1.take(j as int) =~= m.1);
            }
            assert(items.take(k + 1).drop_last() =~= items.take(k as int));
            k = k + 1;
        }
        assert(items.take(k as int) =~= items);
        let ghost body = out@;
        push_repeat(&mut out, '-', 2 + wt + 3 + wv + 2);
        push_str(&mut out, "\n");
        assert(out@ =~= report_text(items));
        out
    }
}

// ---------------------------------------------------------------------------
// Numbers with separators
// ---------------------------------------------------------------------------

/// Digits with a comma between each group of three, counted from the right.
pub open spec fn with_commas(d: Seq<char>) -> Seq<char>
    decreases d.len(),
{
    if d.len() <= 3 {
        d
    } else {
        with_commas(d.take(d.len() - 3)) + seq![','] + d.skip(d.len() - 3)
    }
}

/// A number in decimal with thousands separators.
pub fn format_number(value: u64) -> (r: String)
    ensures
        r@ == with_commas(decimal(value as nat)),
    decreases value,
{
    if value < 1000 {
        let r = crate::text::u64_to_string(value);
        proof {
            lemma_decimal_short(value as nat);
        }
        r
    } else {
        let mut out = format_number(value / 1000);
        push_char(&mut out, ',');
        let low = value % 1000;
        push_char(&mut out, crate::text::digit_to_char(low / 100));
        push_char(&mut out, crate::text::digit_to_char((low / 10) % 10));
        push_char(&mut out, crate::text::digit_to_char(low % 10));
        proof {
            lemma_decimal_groups(value as nat);
        }
        out
    }
}

/// A number below a thousand has at most three digits.
proof fn lemma_decimal_short(n: nat)
    requires
        n < 1000,
    ensures
        decimal(n).len() <= 3,
{
    if n >= 10 {
        if n >= 100 {
            assert(decimal(n / 10 / 10).len() == 1);
        }
        assert(decimal(n / 10).len() <= 2);
    }
}

/// The decimal spelling of a number of four digits or more is that of its thousands and its
/// last three digits.
#[verifier::spinoff_prover]
#[verifier::rlimit(40)]
proof fn lemma_decimal_groups(n: nat)
    requires
        n >= 1000,
    ensures
        decimal(n).len() > 3,
        decimal(n).take(decimal(n).len() - 3) == decimal(n / 1000),
        decimal(n).skip(decimal(n).len() - 3) == seq![
            crate::text::digit_char(((n % 1000) / 100) as int),
            crate::text::digit_char((((n % 1000) / 10) % 10) as int),
            crate::text::digit_char((n % 10) as int),
        ],
{
    let a = decimal(n / 10);
    let b = decimal(n / 100);
    assert(n / 10 >= 100);
    assert(n / 100 >= 10);
    assert((n / 10) / 10 == n / 100);
    assert((n / 100) / 10 == n / 1000);
    assert(decimal(n) == a.push(crate::text::digit_char((n % 10) as int)));
    assert(a == b.push(crate::text::digit_char(((n / 10) % 10) as int)));
    assert(b == decimal(n / 1000).push(crate::text::digit_char(((n / 100) % 10) as int)));
    assert(((n % 1000) / 100) == (n / 100) % 10);
    assert((((n % 1000) / 10) % 10) == (n / 10) % 10);
    let d = decimal(n);
    assert(d.take(d.len() - 3) =~= decimal(n / 1000));
    assert(d.skip(d.len() - 3) =~= seq![
        crate::text::digit_char(((n % 1000) / 100) as int),
        crate::text::digit_char((((n % 1000) / 10) % 10) as int),
        crate::text::digit_char((n % 10) as int),
    ]);
}

// ---------------------------------------------------------------------------
// Queries laid out one clause per line
// ---------------------------------------------------------------------------

/// The text of a value in a query: an IRI in angle brackets, anything else in quotes.
pub open spec fn value_text(v: RyaTypeModel) -> Seq<char> {
    if v.data_type == Some(URI_TYPE@) {
        "<"@ + v.data + ">"@
    } else {
        "\""@ + v.data + "\""@
    }
}

/// The text of a term: a variable with its `?`, or a value.
pub open spec fn term_text(t: FluoTermModel) -> Seq<char> {
    match t {
        FluoTermModel::Var(n) => "?"@ + n,
        FluoTermModel::Constant(v) => value_text(v),
    }
}

/// The text of a statement pattern: its three terms apart by spaces.
pub open spec fn pattern_text(p: FluoPatternModel) -> Seq<char> {
    term_text(p.subject) + " "@ + term_text(p.predicate) + " "@ + term_text(p.object)
}

/// The text of a filter.
pub open spec fn filter_text(f: FilterModel) -> Seq<char> {
    match f {
        FilterModel::Eq(n, v) => "FILTER(?"@ + n + " = "@ + value_text(v) + ")"@,
        FilterModel::Lt(n, m) => "FILTER(?"@ + n + " < "@ + signed_decimal(m) + ")"@,
    }
}

/// The lines of a query laid out clause by clause: the projection, `where {`, the filters,
/// the patterns outside the filters, `}`; the query as one line when it does not parse.
pub open spec fn pretty_sparql(q: Seq<char>) -> Seq<Seq<char>> {
    match select_vars_spec(q) {
        Err(_) => seq![q],
        Ok(vars) => match body_spec(q) {
            Err(_) => seq![q],
            Ok(body) => match filters_spec(body) {
                Err(_) => seq![q],
                Ok((fs, rest)) => {
                    let ps = match patterns_spec(rest) {
                        Ok(ps) => ps,
                        Err(_) => Seq::empty(),
                    };
                    seq![
                        "select "@ + join_spec(vars.map_values(|v: Seq<char>| "?"@ + v), " "@),
                        "where {"@,
                    ] + fs.map_values(|f: FilterModel| "  "@ + filter_text(f) + "."@) + ps.map_values(
                        |p: FluoPatternModel| "  "@ + pattern_text(p) + "."@,
                    ) + seq!["}"@]
                },
            },
        },
    }
}

fn render_value(value: &RyaType) -> (r: String)
    ensures
        r@ == value_text(value@),
{
    let is_uri = match value.data_type() {
        Some(dt) => crate::text::str_eq(dt, URI_TYPE),
        None => false,
    };
    let mut out = String::new();
    if is_uri {
        push_str(&mut out, "<");
        push_str(&mut out, value.data());
        push_str(&mut out, ">");
        assert(out@ =~= "<"@ + value@.data + ">"@);
    } else {
        push_str(&mut out, "\"");
        push_str(&mut out, value.data());
        push_str(&mut out, "\"");
        assert(out@ =~= "\""@ + value@.data + "\""@);
    }
    out
}

fn render_term(term: &FluoTerm) -> (r: String)
    ensures
        r@ == term_text(term_model(*term)),
{
    match term {
        FluoTerm::Var(name) => crate::text::concat("?", name.as_str()),
        FluoTerm::Constant(value) => render_value(value),
    }
}

fn render_pattern(pattern: &FluoStatementPattern) -> (r: String)
    ensures
        r@ == pattern_text(fluo_pattern_model(*pattern)),
{
    let mut out = render_term(&pattern.subject);
    push_str(&mut out, " ");
    let p = render_term(&pattern.predicate);
    push_str(&mut out, p.as_str());
    push_str(&mut out, " ");
    let o = render_term(&pattern.object);
    push_str(&mut out, o.as_str());
    out
}

fn render_filter(filter: &FilterExpression) -> (r: String)
    ensures
        r@ == filter_text(filter_model(*filter)),
{
    let mut out = to_owned("FILTER(?");
    match filter {
        FilterExpression::Eq(name, value) => {
            push_str(&mut out, name.as_str());
            push_str(&mut out, " = ");
            let v = render_value(value);
            push_str(&mut out, v.as_str());
        },
        FilterExpression::Lt(name, bound) => {
            push_str(&mut out, name.as_str());
            push_str(&mut out, " < ");
            let v = crate::text::i64_to_string(*bound);
            push_str(&mut out, v.as_str());
        },
    }
    push_str(&mut out, ")");
    out
}

fn indented_line(s: &str) -> (r: String)
    ensures
        r@ == "  "@ + s@ + "."@,
{
    let mut out = to_owned("  ");
    push_str(&mut out, s);
    push_str(&mut out, ".");
    out
}

/// Lays out a query one clause per line; a query that does not parse is one line.
pub fn pretty_format_sparql(sparql: &str) -> (r: Vec<String>)
    ensures
        views(r@) == pretty_sparql(sparql@),
{
    let mut whole: Vec<String> = Vec::new();
    whole.push(to_owned(sparql));
    assert(views(whole@) =~= seq![sparql@]);
    let vars = match parse_select_vars(sparql) {
        Ok(v) => v,
        Err(_) => {
            return whole;
        },
    };
    let body = match sparql_body(sparql) {
        Ok(b) => b,
        Err(_) => {
            return whole;
        },
    };
    let (filters, rest) = match extract_filters(body.as_str()) {
        Ok(x) => x,
        Err(_) => {
            return whole;
        },
    };
    let mut marked: Vec<String> = Vec::new();
    let mut i: usize = 0;
    while i < vars.len()
        invariant
            i <= vars.len(),
            views(marked@) == views(vars@).map_values(|v: Seq<char>| "?"@ + v).take(i as int),
        decreases vars.len() - i,
    {
        let ghost before = views(marked@);
        marked.push(crate::text::concat("?", vars[i].as_str()));
        assert(views(marked@) =~= before.push("?"@ + vars@[i as int]@));
        assert(views(vars@).map_values(|v: Seq<char>| "?"@ + v).take(i + 1) =~= before.push("?"@ + vars@[i as int]@));
        i = i + 1;
    }
    assert(views(vars@).map_values(|v: Seq<char>| "?"@ + v).take(i as int) =~= views(vars@).map_values(
        |v: Seq<char>| "?"@ + v,
    ));
    let mut lines: Vec<String> = Vec::new();
    let joined = crate::words::join(&marked, " ");
    lines.push(crate::text::concat("select ", joined.as_str()));
    lines.push(to_owned("where {"));
    let ghost head = views(lines@);
    let ghost fm = filter_models(filters@);
    let mut k: usize = 0;
    while k < filters.len()
        invariant
            k <= filters.len(),
            fm == filter_models(filters@),
            views(lines@) == head + fm.map_values(|f: FilterModel| "  "@ + filter_text(f) + "."@).take(k as int),
        decreases filters.len() - k,
    {
        let ghost before = views(lines@);
        let f = render_filter(&filters[k]);
        lines.push(indented_line(f.as_str()));
        assert(views(lines@) =~= before.push("  "@ + filter_text(fm[k as int]) + "."@));
        assert(head + fm.map_values(|f: FilterModel| "  "@ + filter_text(f) + "."@).take(k + 1) =~= before.push(
            "  "@ + filter_text(fm[k as int]) + "."@,
        ));
        k = k + 1;
    }
    assert(fm.map_values(|f: FilterModel| "  "@ + filter_text(f) + "."@).take(k as int) =~= fm.map_values(
        |f: FilterModel| "  "@ + filter_text(f) + "."@,
    ));
    let patterns = match parse_patterns(rest.as_str()) {
        Ok(ps) => ps,
        Err(_) => Vec::new(),
    };
    let ghost pm = pattern_models(patterns@);
    assert(pm == match patterns_spec(rest@) {
        Ok(ps) => ps,
        Err(_) => Seq::<FluoPatternModel>::empty(),
    }) by {
        if patterns_spec(rest@) is Err {
            assert(pm =~= Seq::<FluoPatternModel>::empty());
        }
    }
    let ghost mid = views(lines@);
    let mut j: usize = 0;
    while j < patterns.len()
        invariant
            j <= patterns.len(),
            pm == pattern_models(patterns@),
            views(lines@) == mid + pm.map_values(|p: FluoPatternModel| "  "@ + pattern_text(p) + "."@).take(j as int),
        decreases patterns.len() - j,
    {
        let ghost before = views(lines@);
        let p = render_pattern(&patterns[j]);
        lines.push(indented_line(p.as_str()));
        assert(views(lines@) =~= before.push("  "@ + pattern_text(pm[j as int]) + "."@));
        assert(mid + pm.map_values(|p: FluoPatternModel| "  "@ + pattern_text(p) + "."@).take(j + 1) =~= before.push(
            "  "@ + pattern_text(pm[j as int]) + "."@,
        ));
        j = j + 1;
    }
    assert(pm.map_values(|p: FluoPatternModel| "  "@ + pattern_text(p) + "."@).take(j as int) =~= pm.map_values(
        |p: FluoPatternModel| "  "@ + pattern_text(p) + "."@,
    ));
    let ghost before = views(lines@);
    lines.push(to_owned("}"));
    assert(views(lines@) =~= before.push("}"@));
    proof {
        reveal_strlit("where {");
        reveal_strlit("}");
    }
    assert(views(lines@) =~= pretty_sparql(sparql@));
    lines
}
// ---------------------------------------------------------------------------
// Rendering PCJ metadata and query reports
// ---------------------------------------------------------------------------

/// The decimal spelling of `n`.
pub fn u128_to_string(n: u128) -> (r: String)
    ensures
        r@ == decimal(n as nat),
    decreases n,
{
    if n < 10 {
        let mut out = String::new();
        push_char(&mut out, crate::text::digit_to_char(n as u64));
        assert(out@ =~= decimal(n as nat));
        out
    } else {
        let mut out = u128_to_string(n / 10);
        push_char(&mut out, crate::text::digit_to_char((n % 10) as u64));
        out
    }
}

/// The text of a variable order.
pub open spec fn order_text(o: Seq<Seq<char>>) -> Seq<char> {
    join_spec(o, VARIABLE_ORDER_DELIMITER@)
}

/// The items of the report on one PCJ.
pub open spec fn pcj_items(qid: Seq<char>, m: PcjMetadata) -> Seq<ItemModel> {
    seq![
        ("Query ID"@, seq![qid]),
        ("Cardinality"@, seq![with_commas(decimal(m.cardinality as nat))]),
        ("Export Variable Orders"@, sorted_orders(orders_view(m.var_orders@).to_set()).map_values(
            |o: Seq<Seq<char>>| order_text(o),
        )),
        ("SPARQL"@, pretty_sparql(m.sparql@)),
    ]
}

/// Renders PCJ metadata as report tables.
pub struct PcjMetadataRenderer;

impl PcjMetadataRenderer {
    /// The report table of one PCJ.
    pub fn render_one(&self, query_id: &str, metadata: &PcjMetadata) -> (r: String)
        ensures
            r@ == report_text(pcj_items(query_id@, *metadata)),
    {
        let sorted = sorted_order_set(&metadata.var_orders);
        let ghost want = sorted_orders(orders_view(metadata.var_orders@).to_set()).map_values(
            |o: Seq<Seq<char>>| order_text(o),
        );
        let mut orders: Vec<String> = Vec::new();
        let mut i: usize = 0;
        while i < sorted.len()
            invariant
                i <= sorted.len(),
                want == orders_view(sorted@).map_values(|o: Seq<Seq<char>>| order_text(o)),
                views(orders@) == want.take(i as int),
            decreases sorted.len() - i,
        {
            let ghost before = views(orders@);
            orders.push(sorted[i].to_string());
            assert(views(orders@) =~= before.push(order_text(sorted@[i as int]@)));
            assert(want.take(i + 1) =~= before.push(order_text(sorted@[i as int]@)));
            i = i + 1;
        }
        assert(want.take(i as int) =~= want);
        let card = format_number(metadata.cardinality);
        let builder = Report::builder().append_item(ReportItem::with_value("Query ID", query_id)).append_item(
            ReportItem::with_value("Cardinality", card.as_str()),
        ).append_item(ReportItem::with_lines("Export Variable Orders", orders)).append_item(
            ReportItem::with_lines("SPARQL", pretty_format_sparql(metadata.sparql.as_str())),
        );
        let report = builder.build();
        assert(report.items_view() =~= pcj_items(query_id@, *metadata));
        report.to_string()
    }

    /// The report tables of several PCJs, each followed by an empty line.
    pub fn render_many(&self, metadata: &Vec<(String, PcjMetadata)>) -> (r: String)
        ensures
            r@ == many_text(metadata@, metadata@.len() as nat),
    {
        let mut out = String::new();
        let mut i: usize = 0;
        while i < metadata.len()
            invariant
                i <= metadata.len(),
                out@ == many_text(metadata@, i as nat),
            decreases metadata.len() - i,
        {
            let one = self.render_one(metadata[i].0.as_str(), &metadata[i].1);
            push_str(&mut out, one.as_str());
            push_char(&mut out, '\n');
            i = i + 1;
        }
        out
    }
}

/// The report tables of the first `n` PCJs, each followed by an empty line.
pub open spec fn many_text(ms: Seq<(String, PcjMetadata)>, n: nat) -> Seq<char>
    decreases n,
{
    if n == 0 || n > ms.len() {
        Seq::empty()
    } else {
        many_text(ms, (n - 1) as nat) + report_text(pcj_items(ms[n - 1].0@, ms[n - 1].1)) + seq!['\n']
    }
}

/// The items of the query node of a report.
pub open spec fn query_items(q: QueryMetadataModel, c: u128) -> Seq<ItemModel> {
    seq![
        ("QUERY NODE"@, Seq::empty()),
        ("Node ID"@, seq![q.node_id]),
        ("Variable Order"@, seq![order_text(q.variable_order)]),
        ("SPARQL"@, pretty_sparql(q.sparql)),
        ("Child Node ID"@, seq![q.child_node_id]),
        ("Count"@, seq![decimal(c as nat)]),
    ]
}

/// The items of a filter node of a report.
pub open spec fn filter_items(f: FilterMetadataModel, c: u128) -> Seq<ItemModel> {
    seq![
        (Seq::empty(), Seq::empty()),
        ("FILTER NODE"@, Seq::empty()),
        ("Node ID"@, seq![f.node_id]),
        ("Variable Order"@, seq![order_text(f.variable_order)]),
        ("Original SPARQL"@, pretty_sparql(f.original_sparql)),
        ("Filter Index"@, seq![decimal(f.filter_index_within_sparql as nat)]),
        ("Parent Node ID"@, seq![f.parent_node_id]),
        ("Child Node ID"@, seq![f.child_node_id]),
        ("Count"@, seq![decimal(c as nat)]),
    ]
}

/// The items of a join node of a report.
pub open spec fn join_items(j: JoinMetadataModel, c: u128) -> Seq<ItemModel> {
    seq![
        (Seq::empty(), Seq::empty()),
        ("JOIN NODE"@, Seq::empty()),
        ("Node ID"@, seq![j.node_id]),
        ("Variable Order"@, seq![order_text(j.variable_order)]),
        ("Join Type"@, seq![join_type_name(j.join_type)]),
        ("Parent Node ID"@, seq![j.parent_node_id]),
        ("Left Child Node ID"@, seq![j.left_child_node_id]),
        ("Right Child Node ID"@, seq![j.right_child_node_id]),
        ("Count"@, seq![decimal(c as nat)]),
    ]
}

/// The items of a statement pattern node of a report.
pub open spec fn sp_items(s: StatementPatternMetadataModel, c: u128) -> Seq<ItemModel> {
    seq![
        (Seq::empty(), Seq::empty()),
        ("STATEMENT PATTERN NODE"@, Seq::empty()),
        ("Node ID"@, seq![s.node_id]),
        ("Variable Order"@, seq![order_text(s.variable_order)]),
        ("Statement Pattern"@, seq![s.statement_pattern]),
        ("Parent Node ID"@, seq![s.parent_node_id]),
        ("Count"@, seq![decimal(c as nat)]),
    ]
}

/// The items of the first `n` filters.
pub open spec fn filters_items(fs: Seq<FilterMetadataModel>, counts: Seq<(String, u128)>, n: nat) -> Seq<ItemModel>
    decreases n,
{
    if n == 0 || n > fs.len() {
        Seq::empty()
    } else {
        filters_items(fs, counts, (n - 1) as nat) + filter_items(fs[n - 1], count_of(counts, fs[n - 1].node_id))
    }
}

/// The items of the first `n` joins.
pub open spec fn joins_items(js: Seq<JoinMetadataModel>, counts: Seq<(String, u128)>, n: nat) -> Seq<ItemModel>
    decreases n,
{
    if n == 0 || n > js.len() {
        Seq::empty()
    } else {
        joins_items(js, counts, (n - 1) as nat) + join_items(js[n - 1], count_of(counts, js[n - 1].node_id))
    }
}

/// The items of the first `n` statement patterns.
pub open spec fn sps_items(ss: Seq<StatementPatternMetadataModel>, counts: Seq<(String, u128)>, n: nat) -> Seq<
    ItemModel,
>
    decreases n,
{
    if n == 0 || n > ss.len() {
        Seq::empty()
    } else {
        sps_items(ss, counts, (n - 1) as nat) + sp_items(ss[n - 1], count_of(counts, ss[n - 1].node_id))
    }
}

/// The items of a query report: the query node, then its filters, joins and statement
/// patterns, each with its count.
pub open spec fn query_report_items(r: QueryReport) -> Seq<ItemModel> {
    let q = r.fluo_query;
    let fs = filter_meta_models(q.filters@);
    let js = join_models(q.joins@);
    let ss = sp_models(q.statement_patterns@);
    query_items(q.query_metadata.model(), count_of(r.counts@, q.query_metadata.node_id@)) + filters_items(
        fs,
        r.counts@,
        fs.len(),
    ) + joins_items(js, r.counts@, js.len()) + sps_items(ss, r.counts@, ss.len())
}

/// Renders query reports as report tables.
pub struct QueryReportRenderer;

impl QueryReportRenderer {
    /// The report table of a query: its nodes with their metadata and counts.
    pub fn render(&self, query_report: &QueryReport) -> (r: String)
        ensures
            r@ == report_text(query_report_items(*query_report)),
    {
        let q = &query_report.fluo_query.query_metadata;
        let fq = &query_report.fluo_query;
        let ghost counts = query_report.counts@;
        let c = query_report.count(q.node_id.as_str());
        let vo = q.variable_order.to_string();
        let cs = u128_to_string(c);
        let mut builder = Report::builder().append_item(ReportItem::new("QUERY NODE")).append_item(
            ReportItem::with_value("Node ID", q.node_id.as_str()),
        ).append_item(ReportItem::with_value("Variable Order", vo.as_str())).append_item(
            ReportItem::with_lines("SPARQL", pretty_format_sparql(q.sparql.as_str())),
        ).append_item(ReportItem::with_value("Child Node ID", q.child_node_id.as_str())).append_item(
            ReportItem::with_value("Count", cs.as_str()),
        );
        let ghost head = builder.items_view();
        assert(head =~= query_items(q.model(), c));
        let ghost fs = filter_meta_models(fq.filters@);
        let mut i: usize = 0;
        while i < fq.filters.len()
            invariant
                i <= fq.filters.len(),
                fs == filter_meta_models(fq.filters@),
                counts == query_report.counts@,
                builder.items_view() == head + filters_items(fs, counts, i as nat),
            decreases fq.filters.len() - i,
        {
            let f = &fq.filters[i];
            let c = query_report.count(f.node_id.as_str());
            let vo = f.variable_order.to_string();
            let idx = u128_to_string(f.filter_index_within_sparql as u128);
            let cs = u128_to_string(c);
            let ghost before = builder.items_view();
            builder = builder.append_item(ReportItem::new("")).append_item(ReportItem::new("FILTER NODE")).append_item(
                ReportItem::with_value("Node ID", f.node_id.as_str()),
            ).append_item(ReportItem::with_value("Variable Order", vo.as_str())).append_item(
                ReportItem::with_lines("Original SPARQL", pretty_format_sparql(f.original_sparql.as_str())),
            ).append_item(ReportItem::with_value("Filter Index", idx.as_str())).append_item(
                ReportItem::with_value("Parent Node ID", f.parent_node_id.as_str()),
            ).append_item(ReportItem::with_value("Child Node ID", f.child_node_id.as_str())).append_item(
                ReportItem::with_value("Count", cs.as_str()),
            );
            proof {
                reveal_strlit("");
                assert(fs[i as int] == f.model());
                let fi = filter_items(f.model(), c);
                let b = builder.items_view();
                assert(b.len() == before.len() + 9);
                assert(b[before.len() + 0int] == fi[0int]);
                assert(b[before.len() + 1int] == fi[1int]);
                assert(b[before.len() + 2int] == fi[2int]);
                assert(b[before.len() + 3int] == fi[3int]);
                assert(b[before.len() + 4int] == fi[4int]);
                assert(b[before.len() + 5int] == fi[5int]);
                assert(b[before.len() + 6int] == fi[6int]);
                assert(b[before.len() + 7int] == fi[7int]);
                assert(b[before.len() + 8int] == fi[8int]);
                assert(builder.items_view() =~= before + filter_items(f.model(), c));
            }
            i = i + 1;
        }
        let ghost mid = builder.items_view();
        let ghost js = join_models(fq.joins@);
        let mut j: usize = 0;
        while j < fq.joins.len()
            invariant
                j <= fq.joins.len(),
                js == join_models(fq.joins@),
                counts == query_report.counts@,
                builder.items_view() == mid + joins_items(js, counts, j as nat),
            decreases fq.joins.len() - j,
        {
            let jn = &fq.joins[j];
            let c = query_report.count(jn.node_id.as_str());
            let vo = jn.variable_order.to_string();
            let cs = u128_to_string(c);
            let ghost before = builder.items_view();
            builder = builder.append_item(ReportItem::new("")).append_item(ReportItem::new("JOIN NODE")).append_item(
                ReportItem::with_value("Node ID", jn.node_id.as_str()),
            ).append_item(ReportItem::with_value("Variable Order", vo.as_str())).append_item(
                ReportItem::with_value("Join Type", jn.join_type.as_storage_name()),
            ).append_item(ReportItem::with_value("Parent Node ID", jn.parent_node_id.as_str())).append_item(
                ReportItem::with_value("Left Child Node ID", jn.left_child_node_id.as_str()),
            ).append_item(ReportItem::with_value("Right Child Node ID", jn.right_child_node_id.as_str())).append_item(
                ReportItem::with_value("Count", cs.as_str()),
            );
            proof {
                reveal_strlit("");
                assert(js[j as int] == jn.model());
                let fi = join_items(jn.model(), c);
                let b = builder.items_view();
                assert(b.len() == before.len() + 9);
                assert(b[before.len() + 0int] == fi[0int]);
                assert(b[before.len() + 1int] == fi[1int]);
                assert(b[before.len() + 2int] == fi[2int]);
                assert(b[before.len() + 3int] == fi[3int]);
                assert(b[before.len() + 4int] == fi[4int]);
                assert(b[before.len() + 5int] == fi[5int]);
                assert(b[before.len() + 6int] == fi[6int]);
                assert(b[before.len() + 7int] == fi[7int]);
                assert(b[before.len() + 8int] == fi[8int]);
                assert(builder.items_view() =~= before + join_items(jn.model(), c));
            }
            j = j + 1;
        }
        let ghost mid2 = builder.items_view();
        let ghost ss = sp_models(fq.statement_patterns@);
        let mut k: usize = 0;
        while k < fq.statement_patterns.len()
            invariant
                k <= fq.statement_patterns.len(),
                ss == sp_models(fq.statement_patterns@),
                counts == query_report.counts@,
                builder.items_view() == mid2 + sps_items(ss, counts, k as nat),
            decreases fq.statement_patterns.len() - k,
        {
            let sp = &fq.statement_patterns[k];
            let c = query_report.count(sp.node_id.as_str());
            let vo = sp.variable_order.to_string();
            let cs = u128_to_string(c);
            let ghost before = builder.items_view();
            builder = builder.append_item(ReportItem::new("")).append_item(ReportItem::new("STATEMENT PATTERN NODE")).append_item(
                ReportItem::with_value("Node ID", sp.node_id.as_str()),
            ).append_item(ReportItem::with_value("Variable Order", vo.as_str())).append_item(
                ReportItem::with_value("Statement Pattern", sp.statement_pattern.as_str()),
            ).append_item(ReportItem::with_value("Parent Node ID", sp.parent_node_id.as_str())).append_item(
                ReportItem::with_value("Count", cs.as_str()),
            );
            proof {
                reveal_strlit("");
                assert(ss[k as int] == sp.model());
                let fi = sp_items(sp.model(), c);
                let b = builder.items_view();
                assert(b.len() == before.len() + 7);
                assert(b[before.len() + 0int] == fi[0int]);
                assert(b[before.len() + 1int] == fi[1int]);
                assert(b[before.len() + 2int] == fi[2int]);
                assert(b[before.len() + 3int] == fi[3int]);
                assert(b[before.len() + 4int] == fi[4int]);
                assert(b[before.len() + 5int] == fi[5int]);
                assert(b[before.len() + 6int] == fi[6int]);
                assert(builder.items_view() =~= before + sp_items(sp.model(), c));
            }
            k = k + 1;
        }
        let report = builder.build();
        assert(report.items_view() =~= query_report_items(*query_report));
        report.to_string()
    }
}
} // verus!
