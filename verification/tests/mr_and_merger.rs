use omrya::fjall::FjallRdfConfiguration;
use omrya::fjall_mr::{
    expand_prefixed, parse_angle_iri, parse_nquads, parse_ntriples, parse_rdf_line, parse_trig, table_name,
    MrConfiguration, RdfFileInputFormat, RdfFormat, RyaOutputFormatConfig,
};
use omrya::merger::{
    combine_column_visibilities, convert_child_prop_to_parent_prop, copy_parent_prop_to_child, create_rya_statement,
    day_before, make_argument, month_before, query_auths, set_duplicate_keys, set_duplicate_keys_for_property,
    start_time_string, startup_script, time_from, CalendarUnit, FjallDualInstanceDriver, Occurrence,
    StartupScriptKind, StartupScriptPlatform, ToolConfig,
};
use omrya::resolver::triple::TableLayout;
use omrya::strmap::StrMap;

#[test]
fn ntriples_lines_become_statements() {
    let text = "<http://a/s> <http://a/p> <http://a/o> .\n\n<http://a/s> <http://a/q> \"lit\" .\n";
    let statements = parse_ntriples(text).unwrap();
    assert_eq!(statements.len(), 2);
    assert_eq!(statements[0].subject.data(), "http://a/s");
    assert_eq!(statements[0].object.data(), "http://a/o");
    assert_eq!(statements[1].object.data(), "lit");
    assert_eq!(statements[1].object.data_type(), Some("http://www.w3.org/2001/XMLSchema#string"));
    assert!(statements[0].context.is_none());
}

#[test]
fn ntriples_errors_name_the_problem() {
    assert_eq!(parse_ntriples("http://a/s <http://a/p> <http://a/o> .").err().unwrap(), "Expected IRI: http://a/s <http://a/p> <http://a/o>");
    assert_eq!(parse_ntriples("<http://a/s> <p> <http://a/o>").err().unwrap(), "No local name index in IRI: p");
    assert_eq!(parse_ntriples("<http://a/s> <http://a/p> \"open").err().unwrap(), "Unclosed literal");
    assert_eq!(parse_ntriples("<http://a/s> <http://a/p> _:b").err().unwrap(), "Unsupported RDF object: _:b");
    assert_eq!(parse_ntriples("<s:1> <http://a/p> <http://a/o").err().unwrap(), "Unclosed IRI: http://a/o");
}

#[test]
fn angle_iri_returns_the_rest() {
    assert_eq!(parse_angle_iri("<a:b> rest").unwrap(), ("a:b".to_string(), " rest".to_string()));
}

#[test]
fn nquads_carry_their_graph() {
    let statements = parse_nquads("<http://a/s> <http://a/p> <http://a/o> <http://a/g> .\n").unwrap();
    assert_eq!(statements.len(), 1);
    assert_eq!(statements[0].context.as_ref().unwrap().data(), "http://a/g");
    let line = parse_rdf_line("<http://a/s> <http://a/p> \"x\" .", Some("urn:g")).unwrap();
    assert_eq!(line.context.as_ref().unwrap().data(), "urn:g");
}

#[test]
fn trig_expands_prefixes() {
    let text = "@prefix ex: <http://example.org/> .\nex:g { ex:s ex:p ex:o . }\nex:g { ex:s ex:p \"v w\" }\n";
    let statements = parse_trig(text).unwrap();
    assert_eq!(statements.len(), 2);
    assert_eq!(statements[0].subject.data(), "http://example.org/s");
    assert_eq!(statements[0].object.data(), "http://example.org/o");
    assert_eq!(statements[0].context.as_ref().unwrap().data(), "http://example.org/g");
    assert_eq!(statements[1].object.data(), "v w");
}

#[test]
fn trig_errors() {
    assert!(parse_trig("@prefix").unwrap().is_empty());
    assert_eq!(parse_trig("@prefix ex:").err().unwrap(), "Missing TriG prefix IRI");
    assert_eq!(parse_trig("zz:g { zz:s zz:p zz:o }").err().unwrap(), "Unknown prefix: zz");
    let mut prefixes = StrMap::new();
    prefixes.insert("ex".to_string(), "http://e/".to_string());
    assert_eq!(expand_prefixed(" <http://x> ", &prefixes).unwrap(), "http://x");
    assert_eq!(expand_prefixed("ex:a", &prefixes).unwrap(), "http://e/a");
    assert_eq!(expand_prefixed("plain", &prefixes).err().unwrap(), "Expected prefixed name: plain");
}

#[test]
fn input_format_reads_by_format() {
    let reader = RdfFileInputFormat::new(RdfFormat::NTriples);
    assert!(reader.is_splitable());
    let rows = reader.read_str("<http://a/s> <http://a/p> <http://a/o> .").unwrap();
    assert_eq!(rows.len(), 1);
    assert!(rows[0].rya_statement().is_some());
    let xml = RdfFileInputFormat::new(RdfFormat::RdfXml);
    assert!(!xml.is_splitable());
    assert_eq!(xml.read_str("").err().unwrap(), "RDF/XML parsing is not available in this fixture");
}

#[test]
fn job_configuration_defaults() {
    let mut conf = MrConfiguration::new();
    assert_eq!(conf.table_prefix_or_default(), "rya_");
    assert_eq!(conf.table_layout_or_osp().unwrap(), TableLayout::Osp);
    conf.set_table_layout(TableLayout::Po);
    assert_eq!(conf.table_layout_or_osp().unwrap(), TableLayout::Po);
    conf.set("rdf.tablelayout", "XYZ");
    assert_eq!(conf.table_layout_or_osp().err().unwrap(), "Unknown Rya table layout: XYZ");
    conf.set_bool("flag", true);
    assert!(conf.get_bool("flag", false));
    conf.set("flag", "yes");
    assert!(!conf.get_bool("flag", false));
    assert_eq!(conf.rdf_format(), None);
    conf.set_rdf_format(RdfFormat::Trig);
    assert_eq!(conf.rdf_format(), Some(RdfFormat::Trig));
    assert_eq!(RdfFormat::from_name("NQUADS"), Some(RdfFormat::NQuads));
    assert_eq!(RdfFormat::from_name("turtle"), None);
    assert_eq!(RdfFileInputFormat::from_config(&conf, RdfFormat::NTriples).format, RdfFormat::Trig);
}

#[test]
fn output_settings_from_job() {
    let mut conf = MrConfiguration::new();
    conf.set("ac.cv", "A&B");
    conf.set("RyaOutputFormat.geo.enable", "true");
    let out = RyaOutputFormatConfig::from_mr_config(&conf).unwrap();
    assert_eq!(out.table_prefix, "rya_");
    assert_eq!(out.default_visibility, Some(b"A&B".to_vec()));
    assert!(out.core_tables_enabled);
    assert!(out.geo_enabled);
    assert!(!out.entity_enabled);
    conf.set("rdf.graph", "nocolon");
    assert!(RyaOutputFormatConfig::from_mr_config(&conf).is_err());
}

#[test]
fn table_names_by_layout() {
    assert_eq!(table_name("rya_", TableLayout::Spo), "rya_spo");
    assert_eq!(table_name("x_", TableLayout::Osp), "x_osp");
}

#[test]
fn calendar_arithmetic() {
    assert_eq!(CalendarUnit::Day.milliseconds(), 86_400_000);
    assert_eq!(CalendarUnit::Year.milliseconds(), 31_536_000_000);
    assert_eq!(time_from(1000, 2, CalendarUnit::Second, Occurrence::After), 3000);
    assert_eq!(day_before(86_400_000), 0);
    assert_eq!(month_before(2_678_400_000), 0);
}

#[test]
fn tool_statements_and_arguments() {
    let st = create_rya_statement("s", "p", "o", Some(7));
    assert_eq!(st.subject.data(), "#:s");
    assert_eq!(st.timestamp, 7);
    assert_eq!(make_argument("k", "v"), "-Dk=v");
    assert_eq!(start_time_string(42, false), "42");
    assert_eq!(start_time_string(42, true), "dialog");
}

#[test]
fn duplicate_keys_are_copied() {
    let mut config = ToolConfig::new();
    config.set("ac.instance", "inst");
    config.set("rdf.tablePrefix", "t_");
    set_duplicate_keys(&mut config);
    assert_eq!(config.get("sc.fjall.instancename"), Some("inst"));
    assert_eq!(config.get("sc.fjall.tableprefix"), Some("t_"));
    assert!(!config.contains_key("sc.fjall.username"));
    set_duplicate_keys_for_property(&mut config, "ac.auth", "A");
    assert_eq!(config.get("query.auth"), Some("A"));
    copy_parent_prop_to_child(&mut config, "ac.instance");
    assert_eq!(config.get("ac.instance.child"), Some("inst"));
    let mut child = ToolConfig::new();
    convert_child_prop_to_parent_prop(&mut child, &config, "ac.instance");
    assert_eq!(child.get("ac.instance"), Some("inst"));
}

#[test]
fn dual_instances_have_their_own_settings() {
    let driver = FjallDualInstanceDriver::new(true, false, false, false, false);
    assert_eq!(driver.parent.user, "parent_user");
    assert_eq!(driver.child.table_prefix, "ct_");
    let parent = driver.parent_config();
    assert_eq!(parent.get("ac.mock"), Some("true"));
    assert_eq!(parent.get("sc.fjall.username"), Some("parent_user"));
    assert_eq!(parent.get("ac.coordinator"), Some("localhost"));
    let real = FjallDualInstanceDriver::new(false, false, false, false, true);
    assert_eq!(real.child.user, "root");
    assert!(real.child.initially_exists);
}

#[test]
fn startup_scripts_by_kind() {
    let s = startup_script(StartupScriptKind::BatchMergeTool, StartupScriptPlatform::Windows);
    assert_eq!(s.name, "batch_merge_tool.bat");
    assert_eq!(s.command, "omrya merger merge");
    assert_eq!(s.log_config_path, None);
    let c = startup_script(StartupScriptKind::CopyTool, StartupScriptPlatform::Unix);
    assert_eq!(c.name, "copy_tool.sh");
    assert_eq!(c.log_config_path, Some("config/copy_tool_logging.toml"));
}

#[test]
fn visibilities_combine() {
    assert_eq!(combine_column_visibilities("", "B"), "B");
    assert_eq!(combine_column_visibilities("A", ""), "A");
    assert_eq!(combine_column_visibilities("A", "A"), "A");
    assert_eq!(combine_column_visibilities("A", "B"), "(A)|(B)");
}

#[test]
fn query_auths_are_trimmed_and_distinct() {
    let mut conf = FjallRdfConfiguration::new();
    conf.set("query.auth", " b, a ,,b ");
    assert_eq!(query_auths(&conf), vec!["a".to_string(), "b".to_string()]);
}
