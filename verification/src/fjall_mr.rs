use vstd::prelude::*;

use crate::domain::{iri_model, opt_str_view, valid_iri_spec, RyaIri, RyaStatement, RyaType, RyaTypeModel, XSD_STRING};
use crate::fjall::{bool_str, bool_text};
use crate::resolver::triple::{TableLayout, TripleContext, TripleRow};
use crate::strmap::StrMap;
use crate::text::{
    chars_of, concat, find_char_from, first_index, split_char, split_spec, str_eq, substring, to_owned, views,
};
use crate::text::{ends_with_seq, split_once_spec, starts_with_seq};
use crate::words::{join_spec, trim, trim_end_char_spec, trim_spec, trim_start_char_spec, trim_start_spec, ws_tokens};

verus! {

pub const JOB_NAME_PROP: &'static str = "mapred.job.name";
pub const AC_USERNAME_PROP: &'static str = "ac.username";
pub const AC_PWD_PROP: &'static str = "ac.pwd";
pub const AC_ZK_PROP: &'static str = "ac.zk";
pub const AC_INSTANCE_PROP: &'static str = "ac.instance";
pub const AC_TTL_PROP: &'static str = "ac.ttl";
pub const AC_TABLE_PROP: &'static str = "ac.table";
pub const AC_AUTH_PROP: &'static str = "ac.auth";
pub const AC_CV_PROP: &'static str = "ac.cv";
pub const AC_MOCK_PROP: &'static str = "ac.mock";
pub const AC_HDFS_INPUT_PROP: &'static str = "ac.hdfsinput";
pub const HADOOP_IO_SORT_MB: &'static str = "io.sort.mb";
pub const FORMAT_PROP: &'static str = "rdf.format";
pub const INPUT_PATH: &'static str = "input";
pub const NAMED_GRAPH_PROP: &'static str = "rdf.graph";
pub const TABLE_LAYOUT_PROP: &'static str = "rdf.tablelayout";
pub const TABLE_PREFIX_PROPERTY: &'static str = "rdf.tablePrefix";
pub const TBL_PRFX_DEF: &'static str = "rya_";
pub const TBL_SPO_SUFFIX: &'static str = "spo";
pub const TBL_PO_SUFFIX: &'static str = "po";
pub const TBL_OSP_SUFFIX: &'static str = "osp";

// ---------------------------------------------------------------------------
// Job configuration
// ---------------------------------------------------------------------------

/// The settings of a map-reduce job, by name.
pub struct MrConfiguration {
    values: StrMap,
}

/// The value of a setting, if set.
pub open spec fn lookup_setting(m: Map<Seq<char>, Seq<char>>, k: Seq<char>) -> Option<Seq<char>> {
    if m.contains_key(k) {
        Some(m[k])
    } else {
        None
    }
}

/// The name under which a table layout is stored.
pub open spec fn layout_text(l: TableLayout) -> Seq<char> {
    match l {
        TableLayout::Spo => "SPO"@,
        TableLayout::Po => "PO"@,
        TableLayout::Osp => "OSP"@,
    }
}

/// The table layout a stored name gives.
pub open spec fn layout_from_text(t: Seq<char>) -> Result<TableLayout, Seq<char>> {
    if t == "SPO"@ {
        Ok(TableLayout::Spo)
    } else if t == "PO"@ {
        Ok(TableLayout::Po)
    } else if t == "OSP"@ {
        Ok(TableLayout::Osp)
    } else {
        Err("Unknown Rya table layout: "@ + t)
    }
}

/// The boolean a text spells: `true` or `false` exactly.
pub open spec fn bool_parse(t: Seq<char>) -> Option<bool> {
    if t == "true"@ {
        Some(true)
    } else if t == "false"@ {
        Some(false)
    } else {
        None
    }
}

fn layout_name(layout: TableLayout) -> (r: &'static str)
    ensures
        r@ == layout_text(layout),
{
    match layout {
        TableLayout::Spo => "SPO",
        TableLayout::Po => "PO",
        TableLayout::Osp => "OSP",
    }
}

impl MrConfiguration {
    /// The settings by name.
    pub closed spec fn view(self) -> Map<Seq<char>, Seq<char>> {
        self.values@
    }

    /// No settings.
    pub fn new() -> (r: Self)
        ensures
            r.view() == Map::<Seq<char>, Seq<char>>::empty(),
    {
        MrConfiguration { values: StrMap::new() }
    }

    /// Sets a value.
    pub fn set(&mut self, key: &str, value: &str)
        ensures
            final(self).view() == old(self).view().insert(key@, value@),
    {
        self.values.insert(to_owned(key), to_owned(value));
    }

    /// The value of a setting.
    pub fn get(&self, key: &str) -> (r: Option<&str>)
        ensures
            opt_str_view(r) == lookup_setting(self.view(), key@),
    {
        match self.values.get(key) {
            Some(v) => Some(v.as_str()),
            None => None,
        }
    }

    pub fn set_table_layout(&mut self, layout: TableLayout)
        ensures
            final(self).view() == old(self).view().insert(TABLE_LAYOUT_PROP@, layout_text(layout)),
    {
        self.set(TABLE_LAYOUT_PROP, layout_name(layout));
    }

    /// The table layout set, `OSP` when none is; an unknown name is an error.
    pub fn table_layout_or_osp(&self) -> (r: Result<TableLayout, String>)
        ensures
            ({
                let t = match lookup_setting(self.view(), TABLE_LAYOUT_PROP@) {
                    Some(v) => v,
                    None => "OSP"@,
                };
                match layout_from_text(t) {
                    Ok(l) => r == Ok::<TableLayout, String>(l),
                    Err(e) => r matches Err(x) && x@ == e,
                }
            }),
    {
        let t = match self.get(TABLE_LAYOUT_PROP) {
            Some(v) => v,
            None => "OSP",
        };
        proof {
            reveal_strlit("OSP");
            reveal_strlit("SPO");
            reveal_strlit("PO");
        }
        if str_eq(t, "SPO") {
            Ok(TableLayout::Spo)
        } else if str_eq(t, "PO") {
            Ok(TableLayout::Po)
        } else if str_eq(t, "OSP") {
            Ok(TableLayout::Osp)
        } else {
            Err(crate::text::concat("Unknown Rya table layout: ", t))
        }
    }

    pub fn set_table_prefix(&mut self, prefix: &str)
        ensures
            final(self).view() == old(self).view().insert(TABLE_PREFIX_PROPERTY@, prefix@),
    {
        self.set(TABLE_PREFIX_PROPERTY, prefix);
    }

    /// The table prefix set, `rya_` when none is.
    pub fn table_prefix_or_default(&self) -> (r: &str)
        ensures
            r@ == match lookup_setting(self.view(), TABLE_PREFIX_PROPERTY@) {
                Some(v) => v,
                None => TBL_PRFX_DEF@,
            },
    {
        match self.get(TABLE_PREFIX_PROPERTY) {
            Some(v) => v,
            None => TBL_PRFX_DEF,
        }
    }

    pub fn set_bool(&mut self, key: &str, value: bool)
        ensures
            final(self).view() == old(self).view().insert(key@, bool_text(value)),
    {
        self.set(key, bool_str(value));
    }

    /// A boolean setting: its value when it is `true` or `false`, else the default.
    pub fn get_bool(&self, key: &str, default: bool) -> (r: bool)
        ensures
            r == match lookup_setting(self.view(), key@) {
                Some(v) => match bool_parse(v) {
                    Some(b) => b,
                    None => default,
                },
                None => default,
            },
    {
        proof {
            reveal_strlit("true");
            reveal_strlit("false");
        }
        match self.get(key) {
            Some(v) => {
                if str_eq(v, "true") {
                    true
                } else if str_eq(v, "false") {
                    false
                } else {
                    default
                }
            },
            None => default,
        }
    }

    pub fn set_rdf_format(&mut self, format: RdfFormat)
        ensures
            final(self).view() == old(self).view().insert(FORMAT_PROP@, format_name(format)),
    {
        self.set(FORMAT_PROP, format.name());
    }

    /// The RDF format set, if it names one.
    pub fn rdf_format(&self) -> (r: Option<RdfFormat>)
        ensures
            r == match lookup_setting(self.view(), FORMAT_PROP@) {
                Some(v) => format_from_name(v),
                None => None,
            },
    {
        match self.get(FORMAT_PROP) {
            Some(v) => RdfFormat::from_name(v),
            None => None,
        }
    }
}

// ---------------------------------------------------------------------------
// RDF formats
// ---------------------------------------------------------------------------

/// A serialization of RDF.
#[derive(Clone, Copy, Debug, PartialEq, Eq, Structural)]
pub enum RdfFormat {
    NTriples,
    NQuads,
    Trig,
    RdfXml,
}

/// The name of a format.
pub open spec fn format_name(f: RdfFormat) -> Seq<char> {
    match f {
        RdfFormat::NTriples => "N-Triples"@,
        RdfFormat::NQuads => "N-Quads"@,
        RdfFormat::Trig => "TriG"@,
        RdfFormat::RdfXml => "RDF/XML"@,
    }
}

/// The format a name stands for: its own name or an upper-case alias.
pub open spec fn format_from_name(n: Seq<char>) -> Option<RdfFormat> {
    if n == "N-Triples"@ || n == "NTRIPLES"@ || n == "NTRIPLES_FORMAT"@ {
        Some(RdfFormat::NTriples)
    } else if n == "N-Quads"@ || n == "NQUADS"@ {
        Some(RdfFormat::NQuads)
    } else if n == "TriG"@ || n == "TRIG"@ {
        Some(RdfFormat::Trig)
    } else if n == "RDF/XML"@ || n == "RDFXML"@ {
        Some(RdfFormat::RdfXml)
    } else {
        None
    }
}

impl RdfFormat {
    pub fn name(self) -> (r: &'static str)
        ensures
            r@ == format_name(self),
    {
        match self {
            RdfFormat::NTriples => "N-Triples",
            RdfFormat::NQuads => "N-Quads",
            RdfFormat::Trig => "TriG",
            RdfFormat::RdfXml => "RDF/XML",
        }
    }

    pub fn from_name(name: &str) -> (r: Option<Self>)
        ensures
            r == format_from_name(name@),
    {
        if str_eq(name, "N-Triples") || str_eq(name, "NTRIPLES") || str_eq(name, "NTRIPLES_FORMAT") {
            Some(RdfFormat::NTriples)
        } else if str_eq(name, "N-Quads") || str_eq(name, "NQUADS") {
            Some(RdfFormat::NQuads)
        } else if str_eq(name, "TriG") || str_eq(name, "TRIG") {
            Some(RdfFormat::Trig)
        } else if str_eq(name, "RDF/XML") || str_eq(name, "RDFXML") {
            Some(RdfFormat::RdfXml)
        } else {
            None
        }
    }

    /// Whether a file in this format splits at line breaks: N-Triples and N-Quads.
    pub fn is_line_splittable(self) -> (r: bool)
        ensures
            r == (self == RdfFormat::NTriples || self == RdfFormat::NQuads),
    {
        match self {
            RdfFormat::NTriples | RdfFormat::NQuads => true,
            _ => false,
        }
    }
}

/// Reads RDF files of one format.
pub struct RdfFileInputFormat {
    pub format: RdfFormat,
}

impl RdfFileInputFormat {
    pub fn new(format: RdfFormat) -> (r: Self)
        ensures
            r.format == format,
    {
        RdfFileInputFormat { format }
    }

    /// The format set in the configuration, or the default.
    pub fn from_config(conf: &MrConfiguration, default_format: RdfFormat) -> (r: Self)
        ensures
            r.format == match conf.rdf_format_spec() {
                Some(f) => f,
                None => default_format,
            },
    {
        match conf.rdf_format() {
            Some(f) => RdfFileInputFormat { format: f },
            None => RdfFileInputFormat { format: default_format },
        }
    }

    /// Whether input files may be split: when the format splits at line breaks.
    pub fn is_splitable(&self) -> (r: bool)
        ensures
            r == (self.format == RdfFormat::NTriples || self.format == RdfFormat::NQuads),
    {
        self.format.is_line_splittable()
    }
}

impl MrConfiguration {
    /// The RDF format set, if it names one.
    pub open spec fn rdf_format_spec(self) -> Option<RdfFormat> {
        match lookup_setting(self.view(), FORMAT_PROP@) {
            Some(v) => format_from_name(v),
            None => None,
        }
    }
}

// ---------------------------------------------------------------------------
// Output settings
// ---------------------------------------------------------------------------

/// How statements are written out: the table prefix, the defaults, and which indexes are fed.
pub struct RyaOutputFormatConfig {
    pub table_prefix: String,
    pub default_visibility: Option<Vec<u8>>,
    pub default_context: Option<RyaIri>,
    pub core_tables_enabled: bool,
    pub free_text_enabled: bool,
    pub geo_enabled: bool,
    pub temporal_enabled: bool,
    pub entity_enabled: bool,
}

/// A boolean setting with a default, as `get_bool` reads it.
pub open spec fn bool_setting(m: Map<Seq<char>, Seq<char>>, k: Seq<char>, default: bool) -> bool {
    match lookup_setting(m, k) {
        Some(v) => match bool_parse(v) {
            Some(b) => b,
            None => default,
        },
        None => default,
    }
}

impl RyaOutputFormatConfig {
    /// The output settings of a job configuration; a named graph that is no IRI is an error.
    pub fn from_mr_config(conf: &MrConfiguration) -> (r: Result<Self, String>)
        ensures
            ({
                let m = conf.view();
                match lookup_setting(m, NAMED_GRAPH_PROP@) {
                    Some(g) => !crate::domain::valid_iri_spec(g) ==> r is Err,
                    None => true,
                }
            }),
            r matches Ok(c) ==> ({
                let m = conf.view();
                &&& c.table_prefix@ == match lookup_setting(m, TABLE_PREFIX_PROPERTY@) {
                    Some(v) => v,
                    None => TBL_PRFX_DEF@,
                }
                &&& match lookup_setting(m, AC_CV_PROP@) {
                    Some(v) => c.default_visibility matches Some(b) && b@ == vstd::utf8::encode_utf8(v),
                    None => c.default_visibility is None,
                }
                &&& match lookup_setting(m, NAMED_GRAPH_PROP@) {
                    Some(g) => c.default_context matches Some(i) && crate::domain::valid_iri_spec(g) && i@
                        == crate::domain::iri_model(g),
                    None => c.default_context is None,
                }
                &&& c.core_tables_enabled == bool_setting(m, "RyaOutputFormat.coretables.enable"@, true)
                &&& c.free_text_enabled == bool_setting(m, "RyaOutputFormat.freetext.enable"@, false)
                &&& c.geo_enabled == bool_setting(m, "RyaOutputFormat.geo.enable"@, false)
                &&& c.temporal_enabled == bool_setting(m, "RyaOutputFormat.temporal.enable"@, false)
                &&& c.entity_enabled == bool_setting(m, "RyaOutputFormat.entity.enable"@, false)
            }),
            (match lookup_setting(conf.view(), NAMED_GRAPH_PROP@) {
                Some(g) => crate::domain::valid_iri_spec(g),
                None => true,
            }) ==> r is Ok,
    {
        let default_visibility = match conf.get(AC_CV_PROP) {
            Some(v) => Some(crate::bytes::str_bytes(v)),
            None => None,
        };
        let default_context = match conf.get(NAMED_GRAPH_PROP) {
            Some(g) => match RyaIri::new(g) {
                Ok(i) => Some(i),
                Err(e) => {
                    return Err(e);
                },
            },
            None => None,
        };
        Ok(
            RyaOutputFormatConfig {
                table_prefix: to_owned(conf.table_prefix_or_default()),
                default_visibility,
                default_context,
                core_tables_enabled: conf.get_bool("RyaOutputFormat.coretables.enable", true),
                free_text_enabled: conf.get_bool("RyaOutputFormat.freetext.enable", false),
                geo_enabled: conf.get_bool("RyaOutputFormat.geo.enable", false),
                temporal_enabled: conf.get_bool("RyaOutputFormat.temporal.enable", false),
                entity_enabled: conf.get_bool("RyaOutputFormat.entity.enable", false),
            },
        )
    }
}

// ---------------------------------------------------------------------------
// Reading statements from N-Triples, N-Quads and TriG text
// ---------------------------------------------------------------------------

/// What a statement read from text holds: subject, predicate, object and context.
pub type StatementParts = (RyaTypeModel, RyaTypeModel, RyaTypeModel, Option<RyaTypeModel>);

pub open spec fn statement_parts(s: RyaStatement) -> StatementParts {
    (
        s.subject@,
        s.predicate@,
        s.object@,
        match s.context {
            Some(c) => Some(c@),
            None => None,
        },
    )
}

/// A statement read from text has no qualifier, visibility or value.
pub open spec fn plain_statement(s: RyaStatement) -> bool {
    s.qualifier is None && s.column_visibility is None && s.value is None
}

pub open spec fn statements_parts(v: Seq<RyaStatement>) -> Seq<StatementParts> {
    v.map_values(|s: RyaStatement| statement_parts(s))
}

/// The IRI a text names, or why it names none.
pub open spec fn iri_result(d: Seq<char>) -> Result<RyaTypeModel, Seq<char>> {
    if valid_iri_spec(d) {
        Ok(iri_model(d))
    } else if d.len() == 0 {
        Err("Empty not IRI"@)
    } else {
        Err(crate::domain::no_local_name_message(d))
    }
}

/// A plain string value.
pub open spec fn string_model(d: Seq<char>) -> RyaTypeModel {
    RyaTypeModel { data_type: Some(XSD_STRING@), data: d, language: None }
}

/// An IRI in angle brackets at the start of a text, and what follows it.
pub open spec fn angle_iri_spec(s: Seq<char>) -> Result<(Seq<char>, Seq<char>), Seq<char>> {
    if s.len() == 0 || s[0] != '<' {
        Err("Expected IRI: "@ + s)
    } else {
        let inner = s.skip(1);
        match first_index(inner, '>') {
            None => Err("Unclosed IRI: "@ + inner),
            Some(e) => Ok((inner.take(e), inner.skip(e + 1))),
        }
    }
}

/// The object of a line: an IRI in angle brackets or a quoted string.
pub open spec fn object_spec(rest: Seq<char>) -> Result<RyaTypeModel, Seq<char>> {
    if rest.len() > 0 && rest[0] == '<' {
        match angle_iri_spec(rest) {
            Err(e) => Err(e),
            Ok((o, _)) => iri_result(o),
        }
    } else if rest.len() > 0 && rest[0] == '"' {
        let lit = rest.skip(1);
        match first_index(lit, '"') {
            None => Err("Unclosed literal"@),
            Some(e) => Ok(string_model(lit.take(e))),
        }
    } else {
        Err("Unsupported RDF object: "@ + rest)
    }
}

/// The statement of one N-Triples line, in the given graph if any.
pub open spec fn rdf_line_spec(line: Seq<char>, ctx: Option<Seq<char>>) -> Result<StatementParts, Seq<char>> {
    let l = trim_spec(trim_end_char_spec(trim_spec(line), '.'));
    match angle_iri_spec(l) {
        Err(e) => Err(e),
        Ok((s, r1)) => match angle_iri_spec(trim_start_spec(r1)) {
            Err(e) => Err(e),
            Ok((p, r2)) => match object_spec(trim_start_spec(r2)) {
                Err(e) => Err(e),
                Ok(o) => match iri_result(s) {
                    Err(e) => Err(e),
                    Ok(sm) => match iri_result(p) {
                        Err(e) => Err(e),
                        Ok(pm) => match ctx {
                            None => Ok((sm, pm, o, None)),
                            Some(c) => match iri_result(c) {
                                Err(e) => Err(e),
                                Ok(cm) => Ok((sm, pm, o, Some(cm))),
                            },
                        },
                    },
                },
            },
        },
    }
}

/// `s` without leading white space.
pub fn trim_start(s: &str) -> (r: String)
    ensures
        r@ == trim_start_spec(s@),
{
    let cs = chars_of(s);
    let mut a: usize = 0;
    assert(cs@.skip(0) =~= cs@);
    while a < cs.len() && crate::words::is_whitespace(cs[a])
        invariant
            a <= cs@.len(),
            cs@ == s@,
            trim_start_spec(cs@) == trim_start_spec(cs@.skip(a as int)),
        decreases cs.len() - a,
    {
        assert(cs@.skip(a as int).drop_first() =~= cs@.skip(a + 1));
        a = a + 1;
    }
    let r = substring(cs.as_slice(), a, cs.len());
    assert(r@ =~= cs@.skip(a as int));
    r
}

fn new_iri(d: &str) -> (r: Result<RyaIri, String>)
    ensures
        match iri_result(d@) {
            Ok(m) => r matches Ok(i) && i@ == m,
            Err(e) => r matches Err(x) && x@ == e,
        },
{
    RyaIri::new(d)
}

/// Reads an IRI in angle brackets at the start of a text; returns it and what follows.
pub fn parse_angle_iri(input: &str) -> (r: Result<(String, String), String>)
    ensures
        match angle_iri_spec(input@) {
            Ok((a, b)) => r matches Ok((x, y)) && x@ == a && y@ == b,
            Err(e) => r matches Err(x) && x@ == e,
        },
{
    let cs = chars_of(input);
    if cs.len() == 0 || cs[0] != '<' {
        return Err(concat("Expected IRI: ", input));
    }
    let inner = substring(cs.as_slice(), 1, cs.len());
    assert(inner@ =~= input@.skip(1));
    let ic = chars_of(inner.as_str());
    proof {
        crate::text::lemma_first_index_from(ic@, '>', 0);
    }
    match find_char_from(ic.as_slice(), '>', 0) {
        None => Err(concat("Unclosed IRI: ", inner.as_str())),
        Some(e) => {
            let a = substring(ic.as_slice(), 0, e);
            let b = substring(ic.as_slice(), e + 1, ic.len());
            assert(a@ =~= inner@.take(e as int));
            assert(b@ =~= inner@.skip(e + 1));
            Ok((a, b))
        },
    }
}

fn parse_object(rest: &str) -> (r: Result<RyaType, String>)
    ensures
        match object_spec(rest@) {
            Ok(m) => r matches Ok(t) && t@ == m,
            Err(e) => r matches Err(x) && x@ == e,
        },
{
    let cs = chars_of(rest);
    if cs.len() > 0 && cs[0] == '<' {
        let o = match parse_angle_iri(rest) {
            Ok((o, _)) => o,
            Err(e) => {
                return Err(e);
            },
        };
        match new_iri(o.as_str()) {
            Ok(i) => Ok(i.into_type()),
            Err(e) => Err(e),
        }
    } else if cs.len() > 0 && cs[0] == '"' {
        let lit = substring(cs.as_slice(), 1, cs.len());
        assert(lit@ =~= rest@.skip(1));
        let lc = chars_of(lit.as_str());
        proof {
            crate::text::lemma_first_index_from(lc@, '"', 0);
        }
        match find_char_from(lc.as_slice(), '"', 0) {
            None => Err(to_owned("Unclosed literal")),
            Some(e) => {
                let d = substring(lc.as_slice(), 0, e);
                assert(d@ =~= lit@.take(e as int));
                Ok(RyaType::new(d.as_str()))
            },
        }
    } else {
        Err(concat("Unsupported RDF object: ", rest))
    }
}

/// Reads one N-Triples line, in the given graph if any.
pub fn parse_rdf_line(line: &str, context: Option<&str>) -> (r: Result<RyaStatement, String>)
    ensures
        match rdf_line_spec(line@, opt_str_view(context)) {
            Ok(p) => r matches Ok(st) && statement_parts(st) == p && plain_statement(st),
            Err(e) => r matches Err(x) && x@ == e,
        },
{
    let t = trim(line);
    let t = crate::words::trim_end_char(t.as_str(), '.');
    let l = trim(t.as_str());
    let (subject, rest) = match parse_angle_iri(l.as_str()) {
        Ok(x) => x,
        Err(e) => {
            return Err(e);
        },
    };
    let r1 = trim_start(rest.as_str());
    let (predicate, rest) = match parse_angle_iri(r1.as_str()) {
        Ok(x) => x,
        Err(e) => {
            return Err(e);
        },
    };
    let r2 = trim_start(rest.as_str());
    let object = match parse_object(r2.as_str()) {
        Ok(x) => x,
        Err(e) => {
            return Err(e);
        },
    };
    let s = match new_iri(subject.as_str()) {
        Ok(x) => x,
        Err(e) => {
            return Err(e);
        },
    };
    let p = match new_iri(predicate.as_str()) {
        Ok(x) => x,
        Err(e) => {
            return Err(e);
        },
    };
    let mut statement = RyaStatement::new(s, p, object);
    match context {
        Some(c) => {
            let ci = match new_iri(c) {
                Ok(x) => x,
                Err(e) => {
                    return Err(e);
                },
            };
            statement.context = Some(ci);
        },
        None => {},
    }
    Ok(statement)
}

/// The lines of a text, as `str::lines` gives them up to trailing carriage returns, which
/// every reader trims away.
pub open spec fn text_lines(s: Seq<char>) -> Seq<Seq<char>> {
    let ps = split_spec(s, '\n');
    if ps.len() > 0 && ps.last().len() == 0 {
        ps.drop_last()
    } else {
        ps
    }
}

/// The lines of a text, as `text_lines` states them.
pub fn lines_of(s: &str) -> (r: Vec<String>)
    ensures
        views(r@) == text_lines(s@),
{
    let mut ps = split_char(s, '\n');
    let n = ps.len();
    if n > 0 && ps[n - 1].unicode_len() == 0 {
        let ghost before = views(ps@);
        ps.pop();
        assert(views(ps@) =~= before.drop_last());
    }
    ps
}

/// The statements of the non-blank lines from the first on; the first failure stops.
pub open spec fn ntriples_from(ls: Seq<Seq<char>>) -> Result<Seq<StatementParts>, Seq<char>>
    decreases ls.len(),
{
    if ls.len() == 0 {
        Ok(Seq::empty())
    } else if trim_spec(ls[0]).len() == 0 {
        ntriples_from(ls.drop_first())
    } else {
        match rdf_line_spec(ls[0], None) {
            Err(e) => Err(e),
            Ok(p) => match ntriples_from(ls.drop_first()) {
                Err(e) => Err(e),
                Ok(ps) => Ok(seq![p] + ps),
            },
        }
    }
}

/// The statements of an N-Triples text.
pub open spec fn ntriples_spec(s: Seq<char>) -> Result<Seq<StatementParts>, Seq<char>> {
    ntriples_from(text_lines(s))
}

/// Reads N-Triples text, line by line.
pub fn parse_ntriples(input: &str) -> (r: Result<Vec<RyaStatement>, String>)
    ensures
        match ntriples_spec(input@) {
            Ok(ps) => r matches Ok(v) && statements_parts(v@) == ps && forall|i: int|
                0 <= i < v@.len() ==> #[trigger] plain_statement(v@[i]),
            Err(e) => r matches Err(x) && x@ == e,
        },
{
    let lines = lines_of(input);
    let ghost ls = views(lines@);
    let mut out: Vec<RyaStatement> = Vec::new();
    let mut i: usize = 0;
    assert(ls.skip(0) =~= ls);
    assert(statements_parts(out@) =~= Seq::<StatementParts>::empty());
    while i < lines.len()
        invariant
            i <= lines.len(),
            ls == views(lines@),
            ls == text_lines(input@),
            ntriples_from(ls) == match ntriples_from(ls.skip(i as int)) {
                Ok(ps) => Ok(statements_parts(out@) + ps),
                Err(e) => Err::<Seq<StatementParts>, Seq<char>>(e),
            },
            forall|k: int| 0 <= k < out@.len() ==> #[trigger] plain_statement(out@[k]),
        decreases lines.len() - i,
    {
        assert(ls.skip(i as int)[0] == ls[i as int]);
        assert(ls.skip(i as int).drop_first() =~= ls.skip(i + 1));
        let t = trim(lines[i].as_str());
        if t.unicode_len() > 0 {
            let st = match parse_rdf_line(lines[i].as_str(), None) {
                Ok(x) => x,
                Err(e) => {
                    assert(trim_spec(ls.skip(i as int)[0]).len() != 0);
                    assert(rdf_line_spec(ls[i as int], None) == Err::<StatementParts, Seq<char>>(e@));
                    assert(ntriples_from(ls.skip(i as int)) == Err::<Seq<StatementParts>, Seq<char>>(e@));
                    return Err(e);
                },
            };
            let ghost before = statements_parts(out@);
            out.push(st);
            proof {
                assert(statements_parts(out@) =~= before.push(statement_parts(st)));
                match ntriples_from(ls.skip(i + 1)) {
                    Ok(ps) => {
                        assert(before + (seq![statement_parts(st)] + ps) =~= before.push(statement_parts(st)) + ps);
                    },
                    Err(e) => {},
                }
            }
        }
        i = i + 1;
    }
    proof {
        assert(ls.skip(i as int) =~= Seq::<Seq<char>>::empty());
        assert(statements_parts(out@) + Seq::<StatementParts>::empty() =~= statements_parts(out@));
    }
    Ok(out)
}

/// Where the last ` <` of a text starts, among its first `n` characters.
pub open spec fn last_space_angle(s: Seq<char>, n: int) -> Option<int>
    decreases n,
{
    if n < 2 || n > s.len() {
        None
    } else if s[n - 2] == ' ' && s[n - 1] == '<' {
        Some(n - 2)
    } else {
        last_space_angle(s, n - 1)
    }
}

/// The statement of one N-Quads line: the text before the last ` <` is the triple, the IRI
/// after it the graph.
pub open spec fn nquad_line_spec(line: Seq<char>) -> Result<StatementParts, Seq<char>> {
    let t = trim_spec(line);
    match last_space_angle(t, t.len() as int) {
        None => rdf_line_spec(t, None),
        Some(g) => {
            let triple = t.take(g) + " ."@;
            let graph = trim_end_char_spec(
                trim_start_char_spec(trim_spec(trim_end_char_spec(trim_spec(t.skip(g + 1)), '.')), '<'),
                '>',
            );
            rdf_line_spec(triple, Some(graph))
        },
    }
}

/// The statements of the non-blank N-Quads lines from the first on; the first failure stops.
pub open spec fn nquads_from(ls: Seq<Seq<char>>) -> Result<Seq<StatementParts>, Seq<char>>
    decreases ls.len(),
{
    if ls.len() == 0 {
        Ok(Seq::empty())
    } else if trim_spec(ls[0]).len() == 0 {
        nquads_from(ls.drop_first())
    } else {
        match nquad_line_spec(ls[0]) {
            Err(e) => Err(e),
            Ok(p) => match nquads_from(ls.drop_first()) {
                Err(e) => Err(e),
                Ok(ps) => Ok(seq![p] + ps),
            },
        }
    }
}

fn rfind_space_angle(cs: &Vec<char>) -> (r: Option<usize>)
    ensures
        r matches Some(g) ==> g + 2 <= cs@.len(),
        match last_space_angle(cs@, cs@.len() as int) {
            Some(g) => r matches Some(x) && x as int == g,
            None => r is None,
        },
{
    let mut n = cs.len();
    while n >= 2 && !(cs[n - 2] == ' ' && cs[n - 1] == '<')
        invariant
            n <= cs@.len(),
            last_space_angle(cs@, cs@.len() as int) == last_space_angle(cs@, n as int),
        decreases n,
    {
        n = n - 1;
    }
    if n >= 2 {
        Some(n - 2)
    } else {
        None
    }
}

fn parse_nquad_line(line: &str) -> (r: Result<RyaStatement, String>)
    ensures
        match nquad_line_spec(line@) {
            Ok(p) => r matches Ok(st) && statement_parts(st) == p && plain_statement(st),
            Err(e) => r matches Err(x) && x@ == e,
        },
{
    let t = trim(line);
    let cs = chars_of(t.as_str());
    match rfind_space_angle(&cs) {
        None => parse_rdf_line(t.as_str(), None),
        Some(g) => {
            let mut triple = substring(cs.as_slice(), 0, g);
            crate::text::push_str(&mut triple, " .");
            let after = substring(cs.as_slice(), g + 1, cs.len());
            let a = trim(after.as_str());
            let a = crate::words::trim_end_char(a.as_str(), '.');
            let a = trim(a.as_str());
            let a = crate::words::trim_start_char(a.as_str(), '<');
            let graph = crate::words::trim_end_char(a.as_str(), '>');
            assert(triple@ =~= t@.take(g as int) + " ."@);
            assert(after@ =~= t@.skip(g + 1));
            assert(t@ == trim_spec(line@));
            assert(last_space_angle(t@, t@.len() as int) == Some(g as int));
            assert(graph@ == trim_end_char_spec(
                trim_start_char_spec(trim_spec(trim_end_char_spec(trim_spec(t@.skip(g + 1)), '.')), '<'),
                '>',
            ));
            let gs = Some(graph.as_str());
            assert(opt_str_view(gs) == Some(graph@));
            parse_rdf_line(triple.as_str(), gs)
        },
    }
}

/// Reads N-Quads text, line by line.
pub fn parse_nquads(input: &str) -> (r: Result<Vec<RyaStatement>, String>)
    ensures
        match nquads_from(text_lines(input@)) {
            Ok(ps) => r matches Ok(v) && statements_parts(v@) == ps && forall|i: int|
                0 <= i < v@.len() ==> #[trigger] plain_statement(v@[i]),
            Err(e) => r matches Err(x) && x@ == e,
        },
{
    let lines = lines_of(input);
    let ghost ls = views(lines@);
    let mut out: Vec<RyaStatement> = Vec::new();
    let mut i: usize = 0;
    assert(ls.skip(0) =~= ls);
    assert(statements_parts(out@) =~= Seq::<StatementParts>::empty());
    while i < lines.len()
        invariant
            i <= lines.len(),
            ls == views(lines@),
            ls == text_lines(input@),
            nquads_from(ls) == match nquads_from(ls.skip(i as int)) {
                Ok(ps) => Ok(statements_parts(out@) + ps),
                Err(e) => Err::<Seq<StatementParts>, Seq<char>>(e),
            },
            forall|k: int| 0 <= k < out@.len() ==> #[trigger] plain_statement(out@[k]),
        decreases lines.len() - i,
    {
        assert(ls.skip(i as int)[0] == ls[i as int]);
        assert(ls.skip(i as int).drop_first() =~= ls.skip(i + 1));
        let t = trim(lines[i].as_str());
        if t.unicode_len() > 0 {
            let st = match parse_nquad_line(lines[i].as_str()) {
                Ok(x) => x,
                Err(e) => {
                    assert(trim_spec(ls.skip(i as int)[0]).len() != 0);
                    assert(nquads_from(ls.skip(i as int)) == Err::<Seq<StatementParts>, Seq<char>>(e@));
                    return Err(e);
                },
            };
            let ghost before = statements_parts(out@);
            out.push(st);
            proof {
                assert(statements_parts(out@) =~= before.push(statement_parts(st)));
                match nquads_from(ls.skip(i + 1)) {
                    Ok(ps) => {
                        assert(before + (seq![statement_parts(st)] + ps) =~= before.push(statement_parts(st)) + ps);
                    },
                    Err(e) => {},
                }
            }
        }
        i = i + 1;
    }
    proof {
        assert(ls.skip(i as int) =~= Seq::<Seq<char>>::empty());
        assert(statements_parts(out@) + Seq::<StatementParts>::empty() =~= statements_parts(out@));
    }
    Ok(out)
}

// TriG

/// A name in angle brackets, or a prefixed name expanded with the known prefixes.
pub open spec fn expand_spec(input: Seq<char>, pre: Map<Seq<char>, Seq<char>>) -> Result<Seq<char>, Seq<char>> {
    let i = trim_spec(input);
    if starts_with_seq(i, "<"@) && ends_with_seq(i, ">"@) {
        Ok(trim_end_char_spec(trim_start_char_spec(i, '<'), '>'))
    } else {
        match split_once_spec(i, ':') {
            None => Err("Expected prefixed name: "@ + i),
            Some((p, l)) => if pre.contains_key(p) {
                Ok(pre[p] + l)
            } else {
                Err("Unknown prefix: "@ + p)
            },
        }
    }
}

/// Expands a name in angle brackets or a prefixed name.
pub fn expand_prefixed(input: &str, prefixes: &StrMap) -> (r: Result<String, String>)
    ensures
        match expand_spec(input@, prefixes@) {
            Ok(x) => r matches Ok(y) && y@ == x,
            Err(e) => r matches Err(y) && y@ == e,
        },
{
    let i = trim(input);
    proof {
        reveal_strlit("<");
        reveal_strlit(">");
    }
    if crate::text::starts_with(i.as_str(), "<") && crate::text::ends_with(i.as_str(), ">") {
        let a = crate::words::trim_start_char(i.as_str(), '<');
        return Ok(crate::words::trim_end_char(a.as_str(), '>'));
    }
    match crate::text::split_once_char(i.as_str(), ':') {
        None => Err(concat("Expected prefixed name: ", i.as_str())),
        Some((p, l)) => match prefixes.get(p.as_str()) {
            Some(ns) => Ok(concat(ns.as_str(), l.as_str())),
            None => Err(concat("Unknown prefix: ", p.as_str())),
        },
    }
}

/// The statement of the body of a TriG line, in the given graph.
pub open spec fn trig_statement_spec(triple: Seq<char>, graph: Seq<char>, pre: Map<Seq<char>, Seq<char>>) -> Result<
    StatementParts,
    Seq<char>,
> {
    let toks = ws_tokens(triple);
    if toks.len() == 0 {
        Err("Missing subject"@)
    } else {
        match expand_spec(toks[0], pre) {
            Err(e) => Err(e),
            Ok(s) => if toks.len() == 1 {
                Err("Missing predicate"@)
            } else {
                match expand_spec(toks[1], pre) {
                    Err(e) => Err(e),
                    Ok(p) => {
                        let ot = join_spec(toks.skip(2), " "@);
                        let obj = if ot.len() > 0 && ot[0] == '"' {
                            match first_index(ot.skip(1), '"') {
                                None => Err("Unclosed literal"@),
                                Some(e) => Ok(string_model(ot.subrange(1, e + 1))),
                            }
                        } else {
                            match expand_spec(ot, pre) {
                                Err(e) => Err(e),
                                Ok(x) => iri_result(x),
                            }
                        };
                        match obj {
                            Err(e) => Err(e),
                            Ok(o) => match iri_result(s) {
                                Err(e) => Err(e),
                                Ok(sm) => match iri_result(p) {
                                    Err(e) => Err(e),
                                    Ok(pm) => match iri_result(graph) {
                                        Err(e) => Err(e),
                                        Ok(gm) => Ok((sm, pm, o, Some(gm))),
                                    },
                                },
                            },
                        }
                    },
                }
            },
        }
    }
}

fn parse_trig_statement(triple: &str, graph: &str, prefixes: &StrMap) -> (r: Result<RyaStatement, String>)
    ensures
        match trig_statement_spec(triple@, graph@, prefixes@) {
            Ok(p) => r matches Ok(st) && statement_parts(st) == p && plain_statement(st),
            Err(e) => r matches Err(x) && x@ == e,
        },
{
    let toks = crate::words::split_whitespace(triple);
    if toks.len() == 0 {
        return Err(to_owned("Missing subject"));
    }
    let subject = match expand_prefixed(toks[0].as_str(), prefixes) {
        Ok(x) => x,
        Err(e) => {
            return Err(e);
        },
    };
    if toks.len() == 1 {
        return Err(to_owned("Missing predicate"));
    }
    let predicate = match expand_prefixed(toks[1].as_str(), prefixes) {
        Ok(x) => x,
        Err(e) => {
            return Err(e);
        },
    };
    let mut rest: Vec<String> = Vec::new();
    let mut k: usize = 2;
    while k < toks.len()
        invariant
            2 <= k <= toks.len(),
            views(rest@) == views(toks@).subrange(2, k as int),
        decreases toks.len() - k,
    {
        let ghost before = views(rest@);
        rest.push(toks[k].clone());
        assert(views(rest@) =~= before.push(views(toks@)[k as int]));
        assert(views(rest@) =~= views(toks@).subrange(2, k + 1));
        k = k + 1;
    }
    assert(views(rest@) =~= views(toks@).skip(2));
    let ot = crate::words::join(&rest, " ");
    let oc = chars_of(ot.as_str());
    let object = if oc.len() > 0 && oc[0] == '"' {
        let tail = substring(oc.as_slice(), 1, oc.len());
        assert(tail@ =~= ot@.skip(1));
        let tc = chars_of(tail.as_str());
        proof {
            crate::text::lemma_first_index_from(tc@, '"', 0);
        }
        match find_char_from(tc.as_slice(), '"', 0) {
            None => {
                return Err(to_owned("Unclosed literal"));
            },
            Some(e) => {
                let d = substring(oc.as_slice(), 1, e + 1);
                RyaType::new(d.as_str())
            },
        }
    } else {
        let x = match expand_prefixed(ot.as_str(), prefixes) {
            Ok(x) => x,
            Err(e) => {
                return Err(e);
            },
        };
        match new_iri(x.as_str()) {
            Ok(i) => i.into_type(),
            Err(e) => {
                return Err(e);
            },
        }
    };
    let s = match new_iri(subject.as_str()) {
        Ok(x) => x,
        Err(e) => {
            return Err(e);
        },
    };
    let p = match new_iri(predicate.as_str()) {
        Ok(x) => x,
        Err(e) => {
            return Err(e);
        },
    };
    let g = match new_iri(graph) {
        Ok(x) => x,
        Err(e) => {
            return Err(e);
        },
    };
    let mut statement = RyaStatement::new(s, p, object);
    statement.context = Some(g);
    Ok(statement)
}

/// The statements of the TriG lines from the first on, with the prefixes known so far: a
/// `@prefix` line adds a prefix, a line with `{` holds a graph and one statement, other lines
/// are skipped; the first failure stops.
pub open spec fn trig_from(ls: Seq<Seq<char>>, pre: Map<Seq<char>, Seq<char>>) -> Result<Seq<StatementParts>, Seq<char>>
    decreases ls.len(),
{
    if ls.len() == 0 {
        Ok(Seq::empty())
    } else {
        let line = trim_spec(ls[0]);
        if line.len() == 0 {
            trig_from(ls.drop_first(), pre)
        } else if starts_with_seq(line, "@prefix "@) {
            let toks = ws_tokens(line.skip("@prefix "@.len() as int));
            if toks.len() == 0 {
                Err("Missing TriG prefix"@)
            } else if toks.len() == 1 {
                Err("Missing TriG prefix IRI"@)
            } else {
                trig_from(
                    ls.drop_first(),
                    pre.insert(
                        trim_end_char_spec(toks[0], ':'),
                        trim_end_char_spec(trim_start_char_spec(toks[1], '<'), '>'),
                    ),
                )
            }
        } else {
            match split_once_spec(line, '{') {
                None => trig_from(ls.drop_first(), pre),
                Some((g, body)) => match expand_spec(trim_spec(g), pre) {
                    Err(e) => Err(e),
                    Ok(graph) => {
                        let triple = trim_spec(
                            trim_end_char_spec(trim_spec(trim_end_char_spec(trim_spec(body), '}')), '.'),
                        );
                        match trig_statement_spec(triple, graph, pre) {
                            Err(e) => Err(e),
                            Ok(p) => match trig_from(ls.drop_first(), pre) {
                                Err(e) => Err(e),
                                Ok(ps) => Ok(seq![p] + ps),
                            },
                        }
                    },
                },
            }
        }
    }
}

/// Reads TriG text: prefix declarations and one statement per graph line.
pub fn parse_trig(input: &str) -> (r: Result<Vec<RyaStatement>, String>)
    ensures
        match trig_from(text_lines(input@), Map::empty()) {
            Ok(ps) => r matches Ok(v) && statements_parts(v@) == ps && forall|i: int|
                0 <= i < v@.len() ==> #[trigger] plain_statement(v@[i]),
            Err(e) => r matches Err(x) && x@ == e,
        },
{
    let lines = lines_of(input);
    let ghost ls = views(lines@);
    let mut prefixes = StrMap::new();
    let mut out: Vec<RyaStatement> = Vec::new();
    let mut i: usize = 0;
    assert(ls.skip(0) =~= ls);
    assert(statements_parts(out@) =~= Seq::<StatementParts>::empty());
    while i < lines.len()
        invariant
            i <= lines.len(),
            ls == views(lines@),
            ls == text_lines(input@),
            trig_from(ls, Map::empty()) == match trig_from(ls.skip(i as int), prefixes@) {
                Ok(ps) => Ok(statements_parts(out@) + ps),
                Err(e) => Err::<Seq<StatementParts>, Seq<char>>(e),
            },
            forall|k: int| 0 <= k < out@.len() ==> #[trigger] plain_statement(out@[k]),
        decreases lines.len() - i,
    {
        assert(ls.skip(i as int)[0] == ls[i as int]);
        assert(ls.skip(i as int).drop_first() =~= ls.skip(i + 1));
        let line = trim(lines[i].as_str());
        proof {
            reveal_strlit("@prefix ");
        }
        if line.unicode_len() == 0 {
        } else if crate::text::starts_with(line.as_str(), "@prefix ") {
            let lc = chars_of(line.as_str());
            let rest = substring(lc.as_slice(), 8, lc.len());
            assert(rest@ =~= line@.skip("@prefix "@.len() as int));
            let toks = crate::words::split_whitespace(rest.as_str());
            if toks.len() == 0 {
                return Err(to_owned("Missing TriG prefix"));
            }
            if toks.len() == 1 {
                return Err(to_owned("Missing TriG prefix IRI"));
            }
            let prefix = crate::words::trim_end_char(toks[0].as_str(), ':');
            let a = crate::words::trim_start_char(toks[1].as_str(), '<');
            let iri = crate::words::trim_end_char(a.as_str(), '>');
            prefixes.insert(prefix, iri);
        } else {
            match crate::text::split_once_char(line.as_str(), '{') {
                None => {},
                Some((g, body)) => {
                    let gt = trim(g.as_str());
                    let graph = match expand_prefixed(gt.as_str(), &prefixes) {
                        Ok(x) => x,
                        Err(e) => {
                            return Err(e);
                        },
                    };
                    let b = trim(body.as_str());
                    let b = crate::words::trim_end_char(b.as_str(), '}');
                    let b = trim(b.as_str());
                    let b = crate::words::trim_end_char(b.as_str(), '.');
                    let triple = trim(b.as_str());
                    let st = match parse_trig_statement(triple.as_str(), graph.as_str(), &prefixes) {
                        Ok(x) => x,
                        Err(e) => {
                            return Err(e);
                        },
                    };
                    let ghost before = statements_parts(out@);
                    out.push(st);
                    proof {
                        assert(statements_parts(out@) =~= before.push(statement_parts(st)));
                        match trig_from(ls.skip(i + 1), prefixes@) {
                            Ok(ps) => {
                                assert(before + (seq![statement_parts(st)] + ps) =~= before.push(statement_parts(st))
                                    + ps);
                            },
                            Err(e) => {},
                        }
                    }
                },
            }
        }
        i = i + 1;
    }
    proof {
        assert(ls.skip(i as int) =~= Seq::<Seq<char>>::empty());
        assert(statements_parts(out@) + Seq::<StatementParts>::empty() =~= statements_parts(out@));
    }
    Ok(out)
}

// ---------------------------------------------------------------------------
// Statements in jobs, and the mutations they become
// ---------------------------------------------------------------------------

/// A statement handed between the steps of a job, with the context that lays out its rows.
pub struct RyaStatementWritable {
    pub statement: Option<RyaStatement>,
    pub context: TripleContext,
}

impl RyaStatementWritable {
    /// No statement, in the unhashed context.
    pub fn new() -> (r: Self)
        ensures
            r.statement is None,
            !r.context.hashed(),
    {
        Self::with_context(TripleContext::new(false))
    }

    pub fn with_context(context: TripleContext) -> (r: Self)
        ensures
            r.statement is None,
            r.context == context,
    {
        RyaStatementWritable { statement: None, context }
    }

    pub fn with_statement(statement: RyaStatement, context: TripleContext) -> (r: Self)
        ensures
            r.statement == Some(statement),
            r.context == context,
    {
        RyaStatementWritable { statement: Some(statement), context }
    }

    pub fn rya_statement(&self) -> (r: Option<&RyaStatement>)
        ensures
            match r {
                Some(s) => self.statement == Some(*s),
                None => self.statement is None,
            },
    {
        match &self.statement {
            Some(s) => Some(s),
            None => None,
        }
    }

    pub fn set_rya_statement(&mut self, statement: RyaStatement)
        ensures
            final(self).statement == Some(statement),
            final(self).context == old(self).context,
    {
        self.statement = Some(statement);
    }
}

impl RdfFileInputFormat {
    /// Reads the statements of a text in this reader's format; RDF/XML is not read.
    pub fn read_str(&self, input: &str) -> (r: Result<Vec<RyaStatementWritable>, String>)
        ensures
            ({
                let parsed = match self.format {
                    RdfFormat::NTriples => ntriples_spec(input@),
                    RdfFormat::Trig => trig_from(text_lines(input@), Map::empty()),
                    RdfFormat::NQuads => nquads_from(text_lines(input@)),
                    RdfFormat::RdfXml => Err("RDF/XML parsing is not available in this fixture"@),
                };
                match parsed {
                    Ok(ps) => r matches Ok(v) && v@.len() == ps.len() && forall|i: int|
                        0 <= i < v@.len() ==> ((#[trigger] v@[i]).statement matches Some(st) && statement_parts(st)
                            == ps[i] && plain_statement(st) && !v@[i].context.hashed()),
                    Err(e) => r matches Err(x) && x@ == e,
                }
            }),
    {
        let statements = match self.format {
            RdfFormat::NTriples => parse_ntriples(input),
            RdfFormat::Trig => parse_trig(input),
            RdfFormat::NQuads => parse_nquads(input),
            RdfFormat::RdfXml => {
                return Err(to_owned("RDF/XML parsing is not available in this fixture"));
            },
        };
        let statements = match statements {
            Ok(v) => v,
            Err(e) => {
                return Err(e);
            },
        };
        let context = TripleContext::new(false);
        let ghost ps = statements_parts(statements@);
        let n = statements.len();
        let mut rest = statements;
        let mut out: Vec<RyaStatementWritable> = Vec::new();
        let mut taken: Vec<RyaStatement> = Vec::new();
        let ghost all = rest@;
        while rest.len() > 0
            invariant
                out@.len() + rest@.len() == n,
                n == all.len(),
                rest@ == all.take(rest@.len() as int),
                forall|k: int| 0 <= k < out@.len() ==> (#[trigger] out@[k]).statement == Some(all[n - 1 - k])
                    && out@[k].context == context,
                !context.hashed(),
            decreases rest.len(),
        {
            let st = rest.pop().unwrap();
            assert(rest@ =~= all.take(rest@.len() as int));
            out.push(RyaStatementWritable::with_statement(st, context));
        }
        // The statements came off the end: put them back in order.
        let mut ordered: Vec<RyaStatementWritable> = Vec::new();
        while out.len() > 0
            invariant
                out@.len() + ordered@.len() == n,
                n == all.len(),
                forall|k: int| 0 <= k < out@.len() ==> (#[trigger] out@[k]).statement == Some(all[n - 1 - k])
                    && out@[k].context == context,
                forall|k: int| 0 <= k < ordered@.len() ==> (#[trigger] ordered@[k]).statement == Some(all[k])
                    && ordered@[k].context == context,
                !context.hashed(),
            decreases out.len(),
        {
            let w = out.pop().unwrap();
            ordered.push(w);
        }
        proof {
            assert forall|i: int| 0 <= i < ordered@.len() implies ((#[trigger] ordered@[i]).statement matches Some(st)
                && statement_parts(st) == ps[i] && plain_statement(st) && !ordered@[i].context.hashed()) by {
                assert(ps[i] == statement_parts(all[i]));
            }
        }
        Ok(ordered)
    }
}

/// A change to one row of a table.
pub struct Mutation {
    pub row: Vec<u8>,
    pub column_family: Vec<u8>,
    pub column_qualifier: Vec<u8>,
    pub column_visibility: Option<Vec<u8>>,
    pub value: Vec<u8>,
    pub timestamp: u64,
    pub delete: bool,
}

fn clone_bytes(b: &Vec<u8>) -> (r: Vec<u8>)
    ensures
        r@ == b@,
{
    let mut out: Vec<u8> = Vec::new();
    let mut i: usize = 0;
    while i < b.len()
        invariant
            i <= b.len(),
            out@ == b@.take(i as int),
        decreases b.len() - i,
    {
        out.push(b[i]);
        assert(out@ =~= b@.take(i + 1));
        i = i + 1;
    }
    assert(b@.take(i as int) =~= b@);
    out
}

fn clone_opt_bytes(b: &Option<Vec<u8>>) -> (r: Option<Vec<u8>>)
    ensures
        crate::domain::opt_bytes_view(r) == crate::domain::opt_bytes_view(*b),
{
    match b {
        Some(v) => Some(clone_bytes(v)),
        None => None,
    }
}

impl Mutation {
    /// The mutation that writes a row.
    pub fn from_triple_row(row: TripleRow) -> (r: Self)
        ensures
            r.row@ == row.row@,
            r.column_family@ == row.column_family@,
            r.column_qualifier@ == row.column_qualifier@,
            r.column_visibility == row.column_visibility,
            r.value@ == match row.value {
                Some(v) => v@,
                None => Seq::<u8>::empty(),
            },
            r.timestamp == row.timestamp,
            !r.delete,
    {
        let TripleRow { row, column_family, column_qualifier, column_visibility, value, timestamp } = row;
        let value = match value {
            Some(v) => v,
            None => Vec::new(),
        };
        Mutation { row, column_family, column_qualifier, column_visibility, value, timestamp, delete: false }
    }

    /// The mutation that deletes a row.
    pub fn delete_from_triple_row(row: TripleRow) -> (r: Self)
        ensures
            r.row@ == row.row@,
            r.column_family@ == row.column_family@,
            r.column_qualifier@ == row.column_qualifier@,
            r.column_visibility == row.column_visibility,
            r.value@ == Seq::<u8>::empty(),
            r.timestamp == row.timestamp,
            r.delete,
    {
        let TripleRow { row, column_family, column_qualifier, column_visibility, value: _, timestamp } = row;
        Mutation {
            row,
            column_family,
            column_qualifier,
            column_visibility,
            value: Vec::new(),
            timestamp,
            delete: true,
        }
    }

    /// The row a mutation writes, its value included.
    pub fn as_triple_row(&self) -> (r: TripleRow)
        ensures
            r.row@ == self.row@,
            r.column_family@ == self.column_family@,
            r.column_qualifier@ == self.column_qualifier@,
            crate::domain::opt_bytes_view(r.column_visibility) == crate::domain::opt_bytes_view(
                self.column_visibility,
            ),
            r.value matches Some(v) && v@ == self.value@,
            r.timestamp == self.timestamp,
    {
        TripleRow {
            row: clone_bytes(&self.row),
            column_family: clone_bytes(&self.column_family),
            column_qualifier: clone_bytes(&self.column_qualifier),
            column_visibility: clone_opt_bytes(&self.column_visibility),
            value: Some(clone_bytes(&self.value)),
            timestamp: self.timestamp,
        }
    }
}

/// The key of a stored entry.
pub struct FjallKey {
    pub row: Vec<u8>,
    pub column_family: Vec<u8>,
    pub column_qualifier: Vec<u8>,
    pub column_visibility: Option<Vec<u8>>,
    pub timestamp: u64,
}

/// A stored entry: its key and value.
pub struct FjallKeyValue {
    pub key: FjallKey,
    pub value: Vec<u8>,
}

impl FjallKeyValue {
    /// The entry a mutation writes.
    pub fn from_mutation(mutation: &Mutation) -> (r: Self)
        ensures
            r.key.row@ == mutation.row@,
            r.key.column_family@ == mutation.column_family@,
            r.key.column_qualifier@ == mutation.column_qualifier@,
            crate::domain::opt_bytes_view(r.key.column_visibility) == crate::domain::opt_bytes_view(
                mutation.column_visibility,
            ),
            r.key.timestamp == mutation.timestamp,
            r.value@ == mutation.value@,
    {
        FjallKeyValue {
            key: FjallKey {
                row: clone_bytes(&mutation.row),
                column_family: clone_bytes(&mutation.column_family),
                column_qualifier: clone_bytes(&mutation.column_qualifier),
                column_visibility: clone_opt_bytes(&mutation.column_visibility),
                timestamp: mutation.timestamp,
            },
            value: clone_bytes(&mutation.value),
        }
    }
}

/// The name of the table of a layout: the prefix and the layout's suffix.
pub fn table_name(prefix: &str, layout: TableLayout) -> (r: String)
    ensures
        r@ == prefix@ + match layout {
            TableLayout::Spo => TBL_SPO_SUFFIX@,
            TableLayout::Po => TBL_PO_SUFFIX@,
            TableLayout::Osp => TBL_OSP_SUFFIX@,
        },
{
    let suffix = match layout {
        TableLayout::Spo => TBL_SPO_SUFFIX,
        TableLayout::Po => TBL_PO_SUFFIX,
        TableLayout::Osp => TBL_OSP_SUFFIX,
    };
    concat(prefix, suffix)
}

} // verus!
