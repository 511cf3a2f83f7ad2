use vstd::prelude::*;

use crate::domain::opt_str_view;
use crate::pcj::orders::{insert_order, lemma_orders_unique, orders_sorted, sorted_orders};
use crate::pcj::{orders_view, VariableOrder};
use crate::strmap::StrMap;
use crate::text::{chars_of, find_char_from, split_char, split_spec, starts_with, starts_with_seq, substring, to_owned, views};
use crate::words::{trim, trim_spec};

verus! {

// ---------------------------------------------------------------------------
// Export parameters
// ---------------------------------------------------------------------------

/// The settings of the export to Rya, by name.
pub struct RyaExportParameters {
    params: StrMap,
}

/// The value of a setting, if set.
pub open spec fn setting(m: Map<Seq<char>, Seq<char>>, k: Seq<char>) -> Option<Seq<char>> {
    if m.contains_key(k) {
        Some(m[k])
    } else {
        None
    }
}

impl RyaExportParameters {
    pub const CONF_EXPORT_TO_RYA: &'static str = "pcj.fluo.export.rya.enabled";
    pub const CONF_FJALL_INSTANCE_NAME: &'static str = "pcj.fluo.export.rya.fjallInstanceName";
    pub const CONF_COORDINATOR_SERVERS: &'static str = "pcj.fluo.export.rya.coordinatorServers";
    pub const CONF_EXPORTER_USERNAME: &'static str = "pcj.fluo.export.rya.exporterUsername";
    pub const CONF_EXPORTER_PASSWORD: &'static str = "pcj.fluo.export.rya.exporterPassword";

    /// The settings by name.
    pub closed spec fn view(self) -> Map<Seq<char>, Seq<char>> {
        self.params@
    }

    /// Parameters with the given settings.
    pub fn new(params: StrMap) -> (r: Self)
        ensures
            r.view() == params@,
    {
        RyaExportParameters { params }
    }

    /// The settings.
    pub fn into_inner(self) -> (r: StrMap)
        ensures
            r@ == self.view(),
    {
        self.params
    }

    /// Turns the export to Rya on or off.
    pub fn set_export_to_rya(&mut self, value: bool)
        ensures
            final(self).view() == old(self).view().insert(
                Self::CONF_EXPORT_TO_RYA@,
                if value {
                    "true"@
                } else {
                    "false"@
                },
            ),
    {
        let text = if value {
            to_owned("true")
        } else {
            to_owned("false")
        };
        self.params.insert(to_owned(Self::CONF_EXPORT_TO_RYA), text);
    }

    /// Whether the export to Rya is on: its setting is `true`.
    pub fn is_export_to_rya(&self) -> (r: bool)
        ensures
            r == (setting(self.view(), Self::CONF_EXPORT_TO_RYA@) == Some("true"@)),
    {
        match self.params.get(Self::CONF_EXPORT_TO_RYA) {
            Some(v) => crate::text::str_eq(v.as_str(), "true"),
            None => false,
        }
    }

    fn set(&mut self, key: &str, value: &str)
        ensures
            final(self).view() == old(self).view().insert(key@, value@),
    {
        self.params.insert(to_owned(key), to_owned(value));
    }

    fn get(&self, key: &str) -> (r: Option<&str>)
        ensures
            opt_str_view(r) == setting(self.view(), key@),
    {
        match self.params.get(key) {
            Some(v) => Some(v.as_str()),
            None => None,
        }
    }

    pub fn set_fjall_instance_name(&mut self, value: &str)
        ensures
            final(self).view() == old(self).view().insert(Self::CONF_FJALL_INSTANCE_NAME@, value@),
    {
        self.set(Self::CONF_FJALL_INSTANCE_NAME, value)
    }

    pub fn fjall_instance_name(&self) -> (r: Option<&str>)
        ensures
            opt_str_view(r) == setting(self.view(), Self::CONF_FJALL_INSTANCE_NAME@),
    {
        self.get(Self::CONF_FJALL_INSTANCE_NAME)
    }

    pub fn set_coordinator_servers(&mut self, value: &str)
        ensures
            final(self).view() == old(self).view().insert(Self::CONF_COORDINATOR_SERVERS@, value@),
    {
        self.set(Self::CONF_COORDINATOR_SERVERS, value)
    }

    pub fn coordinator_servers(&self) -> (r: Option<&str>)
        ensures
            opt_str_view(r) == setting(self.view(), Self::CONF_COORDINATOR_SERVERS@),
    {
        self.get(Self::CONF_COORDINATOR_SERVERS)
    }

    pub fn set_exporter_username(&mut self, value: &str)
        ensures
            final(self).view() == old(self).view().insert(Self::CONF_EXPORTER_USERNAME@, value@),
    {
        self.set(Self::CONF_EXPORTER_USERNAME, value)
    }

    pub fn exporter_username(&self) -> (r: Option<&str>)
        ensures
            opt_str_view(r) == setting(self.view(), Self::CONF_EXPORTER_USERNAME@),
    {
        self.get(Self::CONF_EXPORTER_USERNAME)
    }

    pub fn set_exporter_password(&mut self, value: &str)
        ensures
            final(self).view() == old(self).view().insert(Self::CONF_EXPORTER_PASSWORD@, value@),
    {
        self.set(Self::CONF_EXPORTER_PASSWORD, value)
    }

    pub fn exporter_password(&self) -> (r: Option<&str>)
        ensures
            opt_str_view(r) == setting(self.view(), Self::CONF_EXPORTER_PASSWORD@),
    {
        self.get(Self::CONF_EXPORTER_PASSWORD)
    }
}

// ---------------------------------------------------------------------------
// Query requests with `#prefix` lines
// ---------------------------------------------------------------------------

/// Whether a line names a variable order: trimmed, it starts with `#prefix `.
pub open spec fn prefix_line(l: Seq<char>) -> bool {
    starts_with_seq(trim_spec(l), "#prefix "@)
}

/// The order a `#prefix` line names: its comma-separated names, each trimmed.
pub open spec fn line_order(l: Seq<char>) -> Seq<Seq<char>> {
    split_spec(trim_spec(l).skip("#prefix "@.len() as int), ',').map_values(|p: Seq<char>| trim_spec(p))
}

/// The orders of the `#prefix` lines from position `pos` on, and where the last such line
/// ends.
pub open spec fn scan_lines(s: Seq<char>, pos: int) -> (Set<Seq<Seq<char>>>, Option<int>)
    decreases s.len() - pos,
{
    if pos < 0 || pos > s.len() {
        (Set::empty(), None)
    } else {
        match crate::text::first_index_from(s, '\n', pos) {
            Some(e) => {
                proof {
                    crate::text::lemma_first_index_from(s, '\n', pos);
                }
                let line = s.subrange(pos, e);
                let rest = scan_lines(s, e + 1);
                let os = if prefix_line(line) {
                    rest.0.insert(line_order(line))
                } else {
                    rest.0
                };
                let st = if rest.1 is Some {
                    rest.1
                } else if prefix_line(line) {
                    Some(e)
                } else {
                    None
                };
                (os, st)
            },
            None => {
                let line = s.subrange(pos, s.len() as int);
                if prefix_line(line) {
                    (Set::empty().insert(line_order(line)), Some(s.len() as int))
                } else {
                    (Set::empty(), None)
                }
            },
        }
    }
}

/// Where the query of a request starts: after the last `#prefix` line, or at the start.
pub open spec fn request_start(s: Seq<char>) -> int {
    match scan_lines(s, 0).1 {
        Some(x) => x,
        None => 0,
    }
}

/// A query with the variable orders its `#prefix` lines name.
pub struct ParsedQueryRequest {
    pub sparql: String,
    pub var_orders: Vec<VariableOrder>,
}

fn order_of_line(line: &str) -> (r: Option<VariableOrder>)
    ensures
        match r {
            Some(o) => prefix_line(line@) && o@ == line_order(line@),
            None => !prefix_line(line@),
        },
{
    let t = trim(line);
    if !starts_with(t.as_str(), "#prefix ") {
        return None;
    }
    let cs = chars_of(t.as_str());
    proof {
        reveal_strlit("#prefix ");
    }
    let rest = substring(cs.as_slice(), 8, cs.len());
    assert(rest@ =~= trim_spec(line@).skip("#prefix "@.len() as int));
    let parts = split_char(rest.as_str(), ',');
    let mut names: Vec<String> = Vec::new();
    let mut i: usize = 0;
    while i < parts.len()
        invariant
            i <= parts.len(),
            views(names@) == views(parts@).map_values(|p: Seq<char>| trim_spec(p)).take(i as int),
        decreases parts.len() - i,
    {
        let ghost before = views(names@);
        names.push(trim(parts[i].as_str()));
        assert(views(names@) =~= before.push(trim_spec(parts@[i as int]@)));
        assert(views(parts@).map_values(|p: Seq<char>| trim_spec(p)).take(i + 1) =~= before.push(
            trim_spec(parts@[i as int]@),
        ));
        i = i + 1;
    }
    assert(views(parts@).map_values(|p: Seq<char>| trim_spec(p)).take(i as int) =~= views(parts@).map_values(
        |p: Seq<char>| trim_spec(p),
    ));
    Some(VariableOrder::new(names))
}

impl ParsedQueryRequest {
    /// Reads the `#prefix` lines of a request as variable orders; the query is what follows
    /// the last of them, trimmed.
    pub fn parse(text: &str) -> (r: Self)
        ensures
            orders_view(r.var_orders@) == sorted_orders(scan_lines(text@, 0).0),
            r.sparql@ == trim_spec(text@.skip(request_start(text@))),
    {
        let cs = chars_of(text);
        let n = cs.len();
        let ghost s = cs@;
        let mut orders: Vec<VariableOrder> = Vec::new();
        let mut start: usize = 0;
        let mut found = false;
        let mut pos: usize = 0;
        let mut done = false;
        assert(orders_view(orders@).to_set() =~= Set::<Seq<Seq<char>>>::empty());
        while !done
            invariant
                s == cs@,
                n == cs@.len(),
                pos <= n,
                start <= n,
                !found ==> start == 0,
                cs@ == text@,
                orders_sorted(orders_view(orders@)),
                !done ==> scan_lines(s, 0).0 == orders_view(orders@).to_set().union(scan_lines(s, pos as int).0),
                !done ==> scan_lines(s, 0).1 == if scan_lines(s, pos as int).1 is Some {
                    scan_lines(s, pos as int).1
                } else if found {
                    Some(start as int)
                } else {
                    None
                },
                done ==> scan_lines(s, 0).0 == orders_view(orders@).to_set(),
                done ==> scan_lines(s, 0).1 == if found {
                    Some(start as int)
                } else {
                    None
                },
            decreases n + 1 - pos - (if done {
                1int
            } else {
                0int
            }),
        {
            let e = find_char_from(cs.as_slice(), '\n', pos);
            proof {
                crate::text::lemma_first_index_from(s, '\n', pos as int);
            }
            let end = match e {
                Some(x) => x,
                None => n,
            };
            let line = substring(cs.as_slice(), pos, end);
            let ghost acc = orders_view(orders@).to_set();
            match order_of_line(line.as_str()) {
                Some(o) => {
                    insert_order(&mut orders, o);
                    found = true;
                    start = end;
                },
                None => {},
            }
            match e {
                Some(x) => {
                    proof {
                        assert(scan_lines(s, pos as int).0 == if prefix_line(line@) {
                            scan_lines(s, x + 1).0.insert(line_order(line@))
                        } else {
                            scan_lines(s, x + 1).0
                        });
                        if prefix_line(line@) {
                            assert(acc.union(scan_lines(s, pos as int).0) =~= acc.insert(line_order(line@)).union(
                                scan_lines(s, x + 1).0,
                            ));
                        } else {
                            assert(acc.union(scan_lines(s, pos as int).0) =~= acc.union(scan_lines(s, x + 1).0));
                        }
                    }
                    pos = x + 1;
                },
                None => {
                    proof {
                        if prefix_line(line@) {
                            assert(acc.union(scan_lines(s, pos as int).0) =~= acc.insert(line_order(line@)));
                        } else {
                            assert(acc.union(scan_lines(s, pos as int).0) =~= acc);
                        }
                    }
                    done = true;
                },
            }
        }
        proof {
            let ov = orders_view(orders@);
            assert(orders_sorted(ov) && ov.to_set() == scan_lines(s, 0).0);
            lemma_orders_unique(sorted_orders(scan_lines(s, 0).0), ov);
        }
        let sparql_text = substring(cs.as_slice(), start, n);
        assert(sparql_text@ =~= text@.skip(request_start(text@)));
        ParsedQueryRequest { sparql: trim(sparql_text.as_str()), var_orders: orders }
    }
}

} // verus!
