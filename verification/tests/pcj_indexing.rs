use omrya::fjall::FjallRdfConfiguration;
use omrya::pcj_indexing::{
    FjallPcjStorageConfig, FluoPcjUpdaterConfig, NoOpUpdaterSupplier, PrecomputedJoinIndexerConfig,
    PrecomputedJoinStorageType, PrecomputedJoinUpdaterType, FJALL_COORDINATORS, PCJ_STORAGE_TYPE,
    PCJ_UPDATER_TYPE, USE_PCJ_FLUO_UPDATER,
};

#[test]
fn storage_and_updater_types_parse_exact_names() {
    assert!(PrecomputedJoinStorageType::parse("FJALL").is_ok());
    assert_eq!(
        PrecomputedJoinStorageType::parse("fjall").err().unwrap(),
        "Unsupported PrecomputedJoinStorageType: fjall"
    );
    assert!(PrecomputedJoinUpdaterType::parse("NO_UPDATE").unwrap() == PrecomputedJoinUpdaterType::NoUpdate);
    assert_eq!(PrecomputedJoinUpdaterType::Fluo.as_text(), "FLUO");
    assert_eq!(
        PrecomputedJoinUpdaterType::parse("x").err().unwrap(),
        "Unsupported PrecomputedJoinUpdaterType: x"
    );
}

#[test]
fn indexer_config_reads_its_settings() {
    let mut conf = FjallRdfConfiguration::new();
    let c = PrecomputedJoinIndexerConfig::new(&conf);
    assert!(c.pcj_storage_type().unwrap().is_none());
    assert!(!c.use_fluo_updater());
    conf.set(PCJ_STORAGE_TYPE, "FJALL");
    conf.set(PCJ_UPDATER_TYPE, "BAD");
    conf.set(USE_PCJ_FLUO_UPDATER, "True");
    let c = PrecomputedJoinIndexerConfig::new(&conf);
    assert!(c.pcj_storage_type().unwrap() == Some(PrecomputedJoinStorageType::Fjall));
    assert_eq!(c.pcj_updater_type().err().unwrap(), "Unsupported PrecomputedJoinUpdaterType: BAD");
    assert!(c.use_fluo_updater());
}

#[test]
fn storage_instance_name_falls_back() {
    let mut conf = FjallRdfConfiguration::new();
    assert_eq!(
        FjallPcjStorageConfig::new(&conf).rya_instance_name().err().unwrap(),
        "Missing configuration: rdf.tablePrefix"
    );
    conf.set("sc.tablePrefix", "old_");
    assert_eq!(FjallPcjStorageConfig::new(&conf).rya_instance_name().unwrap(), "old_");
    conf.set("rdf.tablePrefix", "new_");
    assert_eq!(FjallPcjStorageConfig::new(&conf).rya_instance_name().unwrap(), "new_");
}

#[test]
fn updater_config_and_no_op_counts() {
    let mut conf = FjallRdfConfiguration::new();
    conf.set(FJALL_COORDINATORS, "zk:2181");
    let u = FluoPcjUpdaterConfig::new(&conf);
    assert_eq!(u.fluo_coordinators(), Some("zk:2181/fluo".to_string()));
    assert_eq!(u.fjall_username(), None);
    let mut n = NoOpUpdaterSupplier.get();
    n.add_statements(&[]);
    n.flush();
    n.flush();
    n.close();
    assert_eq!((n.add_count(), n.delete_count(), n.flush_count(), n.closed()), (0, 0, 2, true));
}
