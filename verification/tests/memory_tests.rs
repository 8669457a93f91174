//! Memory variables and the Memory Manager: write-once statics, limit
//! checks, the registry, and snapshot serialization.

use stream_engine::memory_manager::MemoryManager;
use stream_engine::memory_manager::MemoryMode;
use stream_engine::memory_manager::Parameter;
use stream_engine::memory_manager::State;
use stream_engine::memory_manager::Statics;
use stream_engine::streaming_data::StreamErrCode;
use stream_engine::values::Value;

#[test]
fn test_memory_manager() {
    let mut mm = MemoryManager::new();
    mm.add_mode(0);
    match mm.get_memory_current_mode() {
        Some(_) => {}
        None => panic!("Failed to lock MemoryManager"),
    }
}

#[test]
fn test_static_variable() {
    let mut statics = Statics::new("test_statics", 10, None);
    assert_eq!(statics.get_value(), 10);
    statics.set_value(20).unwrap();
    assert_eq!(statics.get_value(), 20);
    let result = statics.set_value(30);
    assert!(result.is_err());
}

#[test]
fn test_state_variable() {
    let mut state = State::new("test_state", 10);
    assert_eq!(state.get_value(), 10);
    state.set_value(20).unwrap();
    assert_eq!(state.get_value(), 20);
    let result = state.set_value(30);
    assert!(result.is_ok());
}

#[test]
fn test_parameter_variable() {
    let mut param = Parameter::new("test_param", 10, Some([10, 20]));
    assert_eq!(param.get_value(), 10);
    param.set_value(20).unwrap();
    assert_eq!(param.get_value(), 20);
    let result = param.set_value(30);
    assert!(result.is_err());
    assert_eq!(param.get_value(), 20);
}

#[test]
fn test_statics_write_once_scenario() {
    let mut fft_size = Statics::<u32>::new("fft_size", 1024, None);
    assert_eq!(fft_size.get_value(), 1024);
    assert!(fft_size.is_settable());
    assert!(fft_size.set_value(2048).is_ok());
    assert_eq!(fft_size.get_value(), 2048);
    assert!(!fft_size.is_settable());
    assert_eq!(fft_size.set_value(4096), Err(StreamErrCode::InvalidOperation));
    assert_eq!(fft_size.get_value(), 2048);
}

#[test]
fn test_parameter_limits_scenario() {
    let mut p = Parameter::<i32>::new("p", 10, Some([10, 20]));
    assert!(p.set_value(15).is_ok());
    assert_eq!(p.get_value(), 15);
    assert_eq!(p.set_value(25), Err(StreamErrCode::OutOfRange));
    assert_eq!(p.get_value(), 15);
    assert_eq!(p.set_value(5), Err(StreamErrCode::OutOfRange));
    assert_eq!(p.get_value(), 15);
}

#[test]
fn test_state_broadcasts_writes() {
    let mut state = State::<i32>::new("observed", 1);
    let mut listener = stream_engine::connectors::Input::<i32>::new("listener");
    state.connect(listener.sender());
    state.set_value(42).unwrap();
    assert_eq!(listener.recv().unwrap(), 42);
    state.send();
    assert_eq!(listener.recv().unwrap(), 42);
}

#[test]
fn test_register_twice_already_defined() {
    let mut mode = MemoryMode::new();
    assert!(mode.register_statics("b.x", Value::I32(1)).is_ok());
    assert_eq!(mode.register_statics("b.x", Value::I32(2)), Err(StreamErrCode::AlreadyDefined));
    assert!(mode.register_state("b.x", Value::I32(3)).is_ok());
    assert_eq!(mode.register_state("b.x", Value::I32(4)), Err(StreamErrCode::AlreadyDefined));
    assert!(mode.register_parameters("b.x", Value::I32(5)).is_ok());
    assert_eq!(
        mode.register_parameters("b.x", Value::I32(6)),
        Err(StreamErrCode::AlreadyDefined)
    );
}

#[test]
fn test_snapshot_tracks_written_values() {
    let mut mode = MemoryMode::new();
    mode.register_statics("test_statics_reg", Value::I32(10)).unwrap();
    mode.register_state("test_state_reg", Value::I32(20)).unwrap();
    mode.register_parameters("test_param_reg", Value::I32(15)).unwrap();
    mode.update_state("test_state_reg", Value::I32(21));
    let serialized = mode.serialize_all();
    assert!(serialized.contains("\"test_statics_reg\":10"));
    assert!(serialized.contains("\"test_state_reg\":21"));
    assert!(serialized.contains("\"test_param_reg\":15"));
    assert!(serialized.starts_with("{\"memory_mapped\":{\"state\":{"));
    assert!(serialized.ends_with("}}}"));
    assert_eq!(mode.get_state(&"test_state_reg".to_string()), Some(Value::I32(21)));
}

#[test]
fn test_snapshot_value_rendering() {
    let mut mode = MemoryMode::new();
    mode.register_parameters("a.neg", Value::I64(-45)).unwrap();
    mode.register_parameters("a.flag", Value::Bool(true)).unwrap();
    mode.register_parameters("a.big", Value::U64(18446744073709551615)).unwrap();
    let serialized = mode.serialize_all();
    assert!(serialized.contains("\"a.neg\":-45"));
    assert!(serialized.contains("\"a.flag\":true"));
    assert!(serialized.contains("\"a.big\":18446744073709551615"));
}

#[test]
fn test_variable_writes_reach_snapshot() {
    let mut mode = MemoryMode::new();

    let mut fft_size = Statics::<u32>::new("blk.fft_size", 1024, None);
    fft_size.register_in(&mut mode).unwrap();
    assert_eq!(mode.get_statics(&"blk.fft_size".to_string()), Some(Value::U32(1024)));
    fft_size.set_value_in(2048, &mut mode).unwrap();
    assert_eq!(mode.get_statics(&"blk.fft_size".to_string()), Some(Value::U32(2048)));
    // The refused second write reaches neither the cell nor the snapshot.
    assert!(fft_size.set_value_in(4096, &mut mode).is_err());
    assert_eq!(fft_size.get_value(), 2048);
    assert_eq!(mode.get_statics(&"blk.fft_size".to_string()), Some(Value::U32(2048)));

    let mut gain = Parameter::<i32>::new("blk.gain", 10, Some([10, 20]));
    gain.register_in(&mut mode).unwrap();
    gain.set_value_in(15, &mut mode).unwrap();
    assert_eq!(mode.get_parameters(&"blk.gain".to_string()), Some(Value::I32(15)));
    assert!(gain.set_value_in(25, &mut mode).is_err());
    assert_eq!(mode.get_parameters(&"blk.gain".to_string()), Some(Value::I32(15)));

    let mut level = State::<i64>::new("blk.level", 1);
    level.register_in(&mut mode).unwrap();
    level.set_value_in(-3, &mut mode).unwrap();
    assert_eq!(mode.get_state(&"blk.level".to_string()), Some(Value::I64(-3)));

    let serialized = mode.serialize_all();
    assert!(serialized.contains("\"blk.fft_size\":2048"));
    assert!(serialized.contains("\"blk.gain\":15"));
    assert!(serialized.contains("\"blk.level\":-3"));
}

#[test]
fn test_memory_manager_mode_switching() {
    let mut mm = MemoryManager::new();
    mm.add_mode(0);
    mm.add_mode(1);
    assert!(mm.has_mode(0));
    assert!(mm.has_mode(1));
    assert!(!mm.has_mode(2));
    mm.mode_at_mut(0).register_statics("b.k", Value::U32(9)).unwrap();
    mm.set_mode(1);
    assert_eq!(mm.current_mode_index(), 1);
    let preserved = mm.get_memory_mode(0).unwrap();
    assert_eq!(preserved.get_statics(&"b.k".to_string()), Some(Value::U32(9)));
}
