//! Support pieces: the bounded occupancy ring, the statistics cadence,
//! module descriptors, and error construction.

use stream_engine::modules::Dependency;
use stream_engine::modules::ModuleStruct;
use stream_engine::modules::Version;
use stream_engine::streaming_data::StreamErrCode;
use stream_engine::streaming_data::StreamingError;
use stream_engine::task_monitor::OccupancyRing;
use stream_engine::task_monitor::StatisticsCadence;

#[test]
fn test_occupancy_ring_evicts_oldest() {
    let mut ring: OccupancyRing<u32> = OccupancyRing::new(3);
    ring.push(1);
    ring.push(2);
    ring.push(3);
    assert_eq!(ring.len(), 3);
    assert_eq!(ring.samples(), &vec![1, 2, 3]);
    ring.push(4);
    assert_eq!(ring.len(), 3);
    assert_eq!(ring.samples(), &vec![2, 3, 4]);
}

#[test]
fn test_statistics_cadence_fires_on_interval() {
    let mut cadence = StatisticsCadence::new(3);
    assert!(!cadence.tick());
    assert!(!cadence.tick());
    assert!(cadence.tick());
    assert!(!cadence.tick());
    assert!(!cadence.tick());
    assert!(cadence.tick());
}

#[test]
fn test_version_ordering() {
    let base = Version { major: 1, minor: 2, build: 3 };
    assert!(base.at_least(&Version { major: 1, minor: 2, build: 3 }));
    assert!(base.at_least(&Version { major: 1, minor: 1, build: 9 }));
    assert!(base.at_least(&Version { major: 0, minor: 9, build: 9 }));
    assert!(!base.at_least(&Version { major: 1, minor: 3, build: 0 }));
    assert!(!base.at_least(&Version { major: 2, minor: 0, build: 0 }));
}

#[test]
fn test_module_provides_lookup() {
    let module = ModuleStruct {
        name: "filters_module".to_string(),
        description: "Library of processing block for signal filtering".to_string(),
        authors: "".to_string(),
        release_date: "".to_string(),
        version: Version { major: 0, minor: 1, build: 0 },
        dependencies: vec![Dependency {
            dep_name: "core_runtime".to_string(),
            version: Version { major: 1, minor: 0, build: 0 },
        }],
        provides: vec!["fir_filter".to_string(), "iir_filter".to_string()],
    };
    assert!(module.provides_block("fir_filter"));
    assert!(module.provides_block("iir_filter"));
    assert!(!module.provides_block("ekf_filter"));
}

#[test]
fn test_streaming_error_carries_code_and_message() {
    let err = StreamingError::new(StreamErrCode::FileNotFound, "library missing");
    assert_eq!(err.code, StreamErrCode::FileNotFound);
    assert_eq!(err.message, "library missing");
}
