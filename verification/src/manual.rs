use vstd::prelude::*;

use crate::build_info::strs;
use crate::text::{concat, str_eq, strip_suffix, to_owned};

verus! {

#[derive(Clone, Copy, Debug, PartialEq, Eq)]
pub struct ManualBuildConfig {
    pub packaging: &'static str,
    pub site_plugin: &'static str,
    pub markdown_module: &'static str,
    pub input_encoding: &'static str,
    pub output_encoding: &'static str,
    pub retired_web_stack: &'static [&'static str],
}

#[derive(Clone, Copy, Debug, PartialEq, Eq)]
pub struct ManualPage {
    pub title: &'static str,
    pub markdown_file: &'static str,
    pub html_file: &'static str,
}

#[derive(Clone, Copy, Debug, PartialEq, Eq)]
pub struct ManualSection {
    pub name: &'static str,
    pub pages: &'static [ManualPage],
}

pub const MANUAL_MARKDOWN_ROOT: &'static str = "rya/extras/rya.manual/src/site/markdown";
pub const MANUAL_INDEX_PATH: &'static str = "rya/extras/rya.manual/src/site/markdown/index.md";
pub const MANUAL_LINK_REWRITE_SCRIPT: &'static str =
    "rya/extras/rya.manual/src/site/resources/js/fixmarkdownlinks.js";
pub const APACHE_RYA_WEBSITE_URL: &'static str = "http://rya.incubator.apache.org/";
pub const MAPREDUCE_MANUAL_TITLE: &'static str = "MapReduce Interface";
pub const MAPREDUCE_MANUAL_MARKDOWN: &'static str = "mapreduce.md";
pub const MAPREDUCE_MANUAL_HTML: &'static str = "mapreduce.html";
pub const MAPREDUCE_LOAD_JAR: &'static str = "target/rya.mapreduce-3.2.10-SNAPSHOT-shaded.jar";
pub const MAPREDUCE_LOAD_TOOL_CLASS: &'static str = "mvm.rya.fjall.mr.RdfFileInputTool";

/// A page as values: title, markdown file and HTML file.
pub type PageModel = (Seq<char>, Seq<char>, Seq<char>);

pub open spec fn page_model(p: ManualPage) -> PageModel {
    (p.title@, p.markdown_file@, p.html_file@)
}

pub open spec fn section_model(s: ManualSection) -> (Seq<char>, Seq<PageModel>) {
    (s.name@, s.pages@.map_values(|p: ManualPage| page_model(p)))
}

/// The pages of the given sections, in order.
pub open spec fn flatten_pages(secs: Seq<(Seq<char>, Seq<PageModel>)>) -> Seq<PageModel>
    decreases secs.len(),
{
    if secs.len() == 0 {
        Seq::empty()
    } else {
        flatten_pages(secs.drop_last()) + secs.last().1
    }
}

/// The site build settings of the manual.
pub fn manual_build_config() -> (r: ManualBuildConfig)
    ensures
        r.packaging@ == "jar"@,
        r.site_plugin@ == "maven-site-plugin"@,
        r.markdown_module@ == "doxia-module-markdown"@,
        r.input_encoding@ == "UTF-8"@,
        r.output_encoding@ == "UTF-8"@,
        strs(r.retired_web_stack@) == seq![
            "war"@,
            "maven-scalate-plugin_2.11"@,
            "TemplateEngineFilter"@,
            "jetty-maven-plugin"@,
            "tomcat-maven-plugin"@,
            "scalate-wikitext_2.11"@,
        ],
{
    let stack: &'static [&'static str] = &[
        "war",
        "maven-scalate-plugin_2.11",
        "TemplateEngineFilter",
        "jetty-maven-plugin",
        "tomcat-maven-plugin",
        "scalate-wikitext_2.11",
    ];
    assert(strs(stack@) =~= seq![
        "war"@,
        "maven-scalate-plugin_2.11"@,
        "TemplateEngineFilter"@,
        "jetty-maven-plugin"@,
        "tomcat-maven-plugin"@,
        "scalate-wikitext_2.11"@,
    ]);
    ManualBuildConfig {
        packaging: "jar",
        site_plugin: "maven-site-plugin",
        markdown_module: "doxia-module-markdown",
        input_encoding: "UTF-8",
        output_encoding: "UTF-8",
        retired_web_stack: stack,
    }
}

/// Every page of the manual, section by section.
pub fn manual_pages() -> (r: Vec<ManualPage>)
    ensures
        r@.map_values(|p: ManualPage| page_model(p)) == flatten_pages(manual_sections_table()),
{
    let sections = manual_sections();
    let ghost t = manual_sections_table();
    let mut out: Vec<ManualPage> = Vec::new();
    let mut i: usize = 0;
    assert(t.take(0) =~= Seq::<(Seq<char>, Seq<PageModel>)>::empty());
    while i < sections.len()
        invariant
            sections@.map_values(|s: ManualSection| section_model(s)) == t,
            t == manual_sections_table(),
            i <= sections@.len(),
            out@.map_values(|p: ManualPage| page_model(p)) == flatten_pages(t.take(i as int)),
        decreases sections.len() - i,
    {
        let pages = sections[i].pages;
        assert(section_model(sections@[i as int]) == t[i as int]);
        let ghost base = out@.map_values(|p: ManualPage| page_model(p));
        let mut j: usize = 0;
        while j < pages.len()
            invariant
                j <= pages@.len(),
                out@.map_values(|p: ManualPage| page_model(p)) == base + pages@.take(
                    j as int,
                ).map_values(|p: ManualPage| page_model(p)),
            decreases pages.len() - j,
        {
            let ghost before = out@;
            out.push(pages[j]);
            assert(out@ == before.push(pages@[j as int]));
            assert(out@.map_values(|p: ManualPage| page_model(p)) =~= before.map_values(
                |p: ManualPage| page_model(p),
            ).push(page_model(pages@[j as int])));
            assert(pages@.take(j + 1).map_values(|p: ManualPage| page_model(p)) =~= pages@.take(
                j as int,
            ).map_values(|p: ManualPage| page_model(p)).push(page_model(pages@[j as int])));
            j = j + 1;
            assert(out@.map_values(|p: ManualPage| page_model(p)) =~= base + pages@.take(
                j as int,
            ).map_values(|p: ManualPage| page_model(p)));
        }
        assert(pages@.take(j as int) =~= pages@);
        assert(t.take(i + 1).drop_last() =~= t.take(i as int));
        i = i + 1;
    }
    assert(t.take(i as int) =~= t);
    out
}

/// The first page of the manual whose markdown file is `markdown_file`.
pub fn find_page_by_markdown(markdown_file: &str) -> (r: Option<ManualPage>)
    ensures
        match crate::seqs::first_index_of(
            flatten_pages(manual_sections_table()).map_values(|p: PageModel| p.1),
            markdown_file@,
        ) {
            Some(i) => r matches Some(p) && page_model(p) == flatten_pages(manual_sections_table())[i],
            None => r is None,
        },
{
    let pages = manual_pages();
    let ghost all = flatten_pages(manual_sections_table());
    let ghost keys = all.map_values(|p: PageModel| p.1);
    let mut i: usize = 0;
    while i < pages.len()
        invariant
            pages@.map_values(|p: ManualPage| page_model(p)) == all,
            all == flatten_pages(manual_sections_table()),
            keys == all.map_values(|p: PageModel| p.1),
            i <= pages@.len(),
            forall|j: int| 0 <= j < i ==> keys[j] != markdown_file@,
        decreases pages.len() - i,
    {
        assert(page_model(pages@[i as int]) == all[i as int]);
        assert(keys[i as int] == all[i as int].1);
        if str_eq(pages[i].markdown_file, markdown_file) {
            proof {
                crate::seqs::lemma_first_index_of_at(keys, markdown_file@, i as int);
            }
            return Some(pages[i]);
        }
        i = i + 1;
    }
    proof {
        crate::seqs::lemma_first_index_of_none(keys, markdown_file@);
    }
    None
}

/// A link to a markdown page rewritten to the generated HTML page.
pub open spec fn rewritten_href(href: Seq<char>) -> Seq<char> {
    if crate::text::ends_with_seq(href, ".md"@) {
        href.take(href.len() - 3) + ".html"@
    } else {
        href
    }
}

/// Rewrites a `.md` link to the matching `.html` link; other links are kept.
pub fn rewrite_markdown_href(href: &str) -> (r: String)
    ensures
        r@ == rewritten_href(href@),
{
    proof {
        reveal_strlit(".md");
    }
    match strip_suffix(href, ".md") {
        Some(prefix) => concat(prefix.as_str(), ".html"),
        None => to_owned(href),
    }
}

/// The manual's sections and pages, as values.
pub open spec fn manual_sections_table() -> Seq<(Seq<char>, Seq<PageModel>)> {
    seq![
        ("Rya"@, seq![("Overview"@, "overview.md"@, "overview.html"@), ("Quick Start"@, "quickstart.md"@, "quickstart.html"@), ("Load Data"@, "loaddata.md"@, "loaddata.html"@), ("Query Data"@, "querydata.md"@, "querydata.html"@), ("Evaluation Table"@, "eval.md"@, "eval.html"@), ("Pre-computed Joins"@, "loadPrecomputedJoin.md"@, "loadPrecomputedJoin.html"@), ("Inferencing"@, "infer.md"@, "infer.html"@), (MAPREDUCE_MANUAL_TITLE@, MAPREDUCE_MANUAL_MARKDOWN@, MAPREDUCE_MANUAL_HTML@)]),
        ("Samples"@, seq![("Typical First Steps"@, "sm-firststeps.md"@, "sm-firststeps.html"@), ("Simple Add/Query/Remove Statements"@, "sm-simpleaqr.md"@, "sm-simpleaqr.html"@), ("Sparql query"@, "sm-sparqlquery.md"@, "sm-sparqlquery.html"@), ("Adding Authentication"@, "sm-addauth.md"@, "sm-addauth.html"@), ("Inferencing"@, "sm-infer.md"@, "sm-infer.html"@), ("Named Graph"@, "sm-namedgraph.md"@, "sm-namedgraph.html"@), ("Update data"@, "sm-updatedata.md"@, "sm-updatedata.html"@), ("Alx"@, "alx.md"@, "alx.html"@)]),
        ("Development"@, seq![("Building From Source"@, "build-source.md"@, "build-source.html"@)]),
    ]
}

/// The manual's sections, each with its pages.
pub fn manual_sections() -> (r: &'static [ManualSection])
    ensures
        r@.map_values(|s: ManualSection| section_model(s)) == manual_sections_table(),
{
    let r: &'static [ManualSection] = &[
        ManualSection { name: "Rya", pages: &[ManualPage { title: "Overview", markdown_file: "overview.md", html_file: "overview.html" }, ManualPage { title: "Quick Start", markdown_file: "quickstart.md", html_file: "quickstart.html" }, ManualPage { title: "Load Data", markdown_file: "loaddata.md", html_file: "loaddata.html" }, ManualPage { title: "Query Data", markdown_file: "querydata.md", html_file: "querydata.html" }, ManualPage { title: "Evaluation Table", markdown_file: "eval.md", html_file: "eval.html" }, ManualPage { title: "Pre-computed Joins", markdown_file: "loadPrecomputedJoin.md", html_file: "loadPrecomputedJoin.html" }, ManualPage { title: "Inferencing", markdown_file: "infer.md", html_file: "infer.html" }, ManualPage { title: MAPREDUCE_MANUAL_TITLE, markdown_file: MAPREDUCE_MANUAL_MARKDOWN, html_file: MAPREDUCE_MANUAL_HTML }] },
        ManualSection { name: "Samples", pages: &[ManualPage { title: "Typical First Steps", markdown_file: "sm-firststeps.md", html_file: "sm-firststeps.html" }, ManualPage { title: "Simple Add/Query/Remove Statements", markdown_file: "sm-simpleaqr.md", html_file: "sm-simpleaqr.html" }, ManualPage { title: "Sparql query", markdown_file: "sm-sparqlquery.md", html_file: "sm-sparqlquery.html" }, ManualPage { title: "Adding Authentication", markdown_file: "sm-addauth.md", html_file: "sm-addauth.html" }, ManualPage { title: "Inferencing", markdown_file: "sm-infer.md", html_file: "sm-infer.html" }, ManualPage { title: "Named Graph", markdown_file: "sm-namedgraph.md", html_file: "sm-namedgraph.html" }, ManualPage { title: "Update data", markdown_file: "sm-updatedata.md", html_file: "sm-updatedata.html" }, ManualPage { title: "Alx", markdown_file: "alx.md", html_file: "alx.html" }] },
        ManualSection { name: "Development", pages: &[ManualPage { title: "Building From Source", markdown_file: "build-source.md", html_file: "build-source.html" }] },
    ];
    assert(section_model(r@[0]) =~= manual_sections_table()[0]);
    assert(section_model(r@[1]) =~= manual_sections_table()[1]);
    assert(section_model(r@[2]) =~= manual_sections_table()[2]);
    assert(r@.map_values(|s: ManualSection| section_model(s)) =~= manual_sections_table());
    r
}

} // verus!
