use omrya::indexing::{
    configured_additional_indexers, configured_indexer_plan, configured_pcj_optimizer,
    simple_tokenize, FilterFunctionOptimizerFixture, IndexingConfiguration,
    ENTITY_CENTRIC_INDEXER_CLASS, ENTITY_OPTIMIZER_CLASS, FILTER_FUNCTION_OPTIMIZER_CLASS,
    FJALL_FREETEXT_INDEXER_CLASS, FJALL_TEMPORAL_INDEXER_CLASS, PCJ_OPTIMIZER_CLASS,
    PRECOMPUTED_JOIN_INDEXER_CLASS, USE_ENTITY, USE_FREETEXT, USE_OPTIMAL_PCJ, USE_TEMPORAL,
};
use omrya::partition::{CloudbaseValueConverter, PartitionKey, TimeRangeFilter};
use omrya::strmap::StrMap;

#[test]
fn tokens_are_lower_case_runs() {
    assert_eq!(
        simple_tokenize("Hello, WORLD! foo_bar* x-1 hello"),
        vec!["1", "foo_bar*", "hello", "world", "x"]
    );
    assert!(simple_tokenize(" ,, ").is_empty());
}

#[test]
fn flags_read_true_in_any_case() {
    let mut conf = IndexingConfiguration::new();
    conf.set(USE_FREETEXT, "TRUE");
    conf.set_bool(USE_TEMPORAL, true);
    conf.set(USE_ENTITY, "yes");
    assert!(conf.get_bool(USE_FREETEXT));
    assert!(!conf.get_bool(USE_ENTITY));
    let add = configured_additional_indexers(&conf);
    assert_eq!(add.classes, vec![FJALL_FREETEXT_INDEXER_CLASS, FJALL_TEMPORAL_INDEXER_CLASS]);
    assert!(add.use_filter_index);
    assert_eq!(configured_pcj_optimizer(&conf), None);
    conf.set_csv("sc.freetext.predicates", &vec!["urn:a".to_string(), "urn:b".to_string()]);
    assert_eq!(conf.values.get("sc.freetext.predicates").unwrap(), "urn:a,urn:b");
}

#[test]
fn plan_adds_entity_and_pcj_parts() {
    let mut conf = IndexingConfiguration::new();
    conf.set_bool(USE_ENTITY, true);
    conf.set_bool(USE_OPTIMAL_PCJ, true);
    let plan = configured_indexer_plan(&conf);
    assert_eq!(plan.additional_indexers, vec![ENTITY_CENTRIC_INDEXER_CLASS, PRECOMPUTED_JOIN_INDEXER_CLASS]);
    assert_eq!(plan.optimizers, vec![ENTITY_OPTIMIZER_CLASS]);
    assert_eq!(plan.pcj_optimizer, Some(PCJ_OPTIMIZER_CLASS));
    assert_eq!(plan.optimizer_key, "query.optimizers");
    conf.set_bool(USE_TEMPORAL, true);
    let plan = configured_indexer_plan(&conf);
    assert_eq!(plan.optimizers, vec![FILTER_FUNCTION_OPTIMIZER_CLASS, ENTITY_OPTIMIZER_CLASS]);
    assert!(FilterFunctionOptimizerFixture::from_config(&conf).initialized);
    assert_eq!(conf.fluo_app_name(), None);
}

#[test]
fn time_range_filter_reads_options() {
    let mut o = StrMap::new();
    assert_eq!(
        TimeRangeFilter::from_options(&o, 100).err().unwrap(),
        "timeRange must be set for TimeRangeFilter"
    );
    o.insert("timeRange".to_string(), "x".to_string());
    assert_eq!(
        TimeRangeFilter::from_options(&o, 100).err().unwrap(),
        "Invalid TimeRangeFilter timeRange: invalid digit found in string"
    );
    o.insert("timeRange".to_string(), "10".to_string());
    let f = TimeRangeFilter::from_options(&o, 100).unwrap();
    assert_eq!((f.time_range, f.start_time), (10, 100));
    assert!(f.accept_timestamp(95));
    assert!(f.accept_timestamp(90));
    assert!(!f.accept_timestamp(89));
    assert!(!f.accept_timestamp(101));
    o.insert("startTime".to_string(), "".to_string());
    assert_eq!(
        TimeRangeFilter::from_options(&o, 100).err().unwrap(),
        "Invalid TimeRangeFilter startTime: cannot parse integer from empty string"
    );
}

#[test]
fn converter_writes_records_in_key_order() {
    let c = CloudbaseValueConverter::new(Some(";"), Some(""));
    assert_eq!(c.pair_delimiter, ";");
    assert_eq!(c.value_delimiter, "\u{fffd}");
    let mut r = StrMap::new();
    r.insert("b".to_string(), "2".to_string());
    r.insert("a".to_string(), "1".to_string());
    assert_eq!(c.to_value(&r), "a\u{fffd}1;b\u{fffd}2");
    let k = PartitionKey::new("r", "f", "q");
    assert_eq!(k.column_qualifier, "q");
}

#[test]
fn converter_reads_records_back() {
    let c = CloudbaseValueConverter::new(Some(";"), Some("="));
    let m = c.to_map(" x = 1; y=2;z");
    assert_eq!(m.len(), 2);
    assert_eq!(m.get("x").unwrap(), "1");
    assert_eq!(m.get("y").unwrap(), "2");
    let m = c.to_map("k=v=w;k=again");
    assert_eq!(m.len(), 1);
    assert_eq!(m.get("k").unwrap(), "again");
    let d = CloudbaseValueConverter::new(None, None);
    let m = d.to_map("a\u{fffd}1\0b\u{fffd} 2 ");
    assert_eq!(m.get("a").unwrap(), "1");
    assert_eq!(m.get("b").unwrap(), "2");
    let mut r = StrMap::new();
    r.insert("a".to_string(), "1".to_string());
    r.insert("b".to_string(), "2".to_string());
    let back = d.to_map(&d.to_value(&r));
    assert!(back.same_as(&r));
}
