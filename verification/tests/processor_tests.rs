//! Blocks, chains, modes and the managers: the lifecycle state machine,
//! the example block's processing, bulk engine operations, and the
//! quiescent mode switch.

use stream_engine::engine::ProcessorChain;
use stream_engine::engine::ProcessorEngine;
use stream_engine::engine::ProcessorManager;
use stream_engine::engine::ProcessorMode;
use stream_engine::stream_processor::StreamProcessor;
use stream_engine::streaming_data::StreamErrCode;
use stream_engine::streaming_data::StreamingState;
use stream_engine::test_block::TestBlock;
use stream_engine::values::Value;

#[test]
fn test_processor() {
    let mut test_block = TestBlock::new("test");
    let res = test_block.init();
    assert!(res.is_err());
    assert_eq!(res.err(), Some(StreamErrCode::InvalidStatics));
    let res = test_block.base.set_statics_value::<i32>("sum_value", 5);
    assert!(res.is_ok());
    assert!(test_block.init().is_ok());
    let sender = test_block.base.get_input_channel::<i32>("test_input").unwrap();
    let (out_sender, out_receiver) = std::sync::mpsc::sync_channel::<i32>(50);
    let _ = test_block.base.connect("test_output", out_sender);

    let _ = sender.send(0);
    let _ = test_block.process();
    assert_eq!(out_receiver.recv().unwrap(), 5);
    let _ = sender.send(1);
    let _ = test_block.process();
    assert_eq!(out_receiver.recv().unwrap(), 6);
    let _ = test_block.base.set_parameter_value::<bool>("change_sign", true);
    let _ = sender.send(1);
    let _ = test_block.process();
    assert_eq!(out_receiver.recv().unwrap(), -6);
}

#[test]
fn test_block_compute_step() {
    assert_eq!(TestBlock::compute_output(0, 5, false), 5);
    assert_eq!(TestBlock::compute_output(1, 5, false), 6);
    assert_eq!(TestBlock::compute_output(1, 5, true), -6);
    assert_eq!(TestBlock::compute_output(i32::MAX, 1, false), i32::MIN);
}

#[test]
fn test_engine() {
    let mut engine = ProcessorEngine::<TestBlock>::new();
    let mut test_block = TestBlock::new("test_processor");
    test_block.base.set_statics_value::<i32>("sum_value", 10).unwrap();
    engine.register_processor("test_processor", test_block).unwrap();
    engine.init().unwrap();
    engine.stop().unwrap();
}

#[test]
fn test_engine_refuses_duplicate_names() {
    let mut engine = ProcessorEngine::<TestBlock>::new();
    engine.register_processor("twin", TestBlock::new("twin")).unwrap();
    let res = engine.register_processor("twin", TestBlock::new("twin"));
    assert_eq!(res.err(), Some(StreamErrCode::AlreadyDefined));
}

#[test]
fn test_engine_init_failure_stops_everything() {
    let mut engine = ProcessorEngine::<TestBlock>::new();
    let mut ready = TestBlock::new("ready");
    ready.base.set_statics_value::<i32>("sum_value", 1).unwrap();
    engine.register_processor("ready", ready).unwrap();
    // This block's statics cell is never written, so bulk init fails.
    engine.register_processor("unready", TestBlock::new("unready")).unwrap();
    let res = engine.init();
    assert_eq!(res.err(), Some(StreamErrCode::InvalidStatics));
}

#[test]
fn test_engine_command_dispatch() {
    let mut engine = ProcessorEngine::<TestBlock>::new();
    engine.register_processor("blk", TestBlock::new("blk")).unwrap();
    let args: Vec<String> = Vec::new();
    let res = engine.execute_command("missing", "status", &args);
    assert_eq!(res.err(), Some(StreamErrCode::InvalidInput));
    let res = engine.execute_command("blk", "status", &args);
    assert_eq!(res.err(), Some(StreamErrCode::InvalidOperation));
}

#[test]
fn test_lifecycle_guard() {
    let mut block = TestBlock::new("guarded");
    assert_eq!(block.init().err(), Some(StreamErrCode::InvalidStatics));
    block.base.set_statics_value::<i32>("sum_value", 3).unwrap();
    assert!(block.init().is_ok());
    assert!(block.check_state(StreamingState::Initial));
    assert!(block.run().is_ok());
    assert!(block.check_state(StreamingState::Running));
    assert_eq!(block.init().err(), Some(StreamErrCode::InvalidStateTransition));
    assert!(block.stop().is_ok());
    assert!(block.check_state(StreamingState::Stopped));
    assert_eq!(block.run().err(), Some(StreamErrCode::InvalidStateTransition));
}

#[test]
fn test_run_requires_init() {
    let mut block = TestBlock::new("fresh");
    assert_eq!(block.run().err(), Some(StreamErrCode::InvalidStateTransition));
}

#[test]
fn test_block_typed_lookup_errors() {
    let mut block = TestBlock::new("typed");
    assert_eq!(
        block.base.new_input::<i32>("test_input").err(),
        Some(StreamErrCode::AlreadyDefined)
    );
    assert_eq!(
        block.base.get_input_channel::<bool>("test_input").err(),
        Some(StreamErrCode::WrongType)
    );
    assert_eq!(
        block.base.get_input_channel::<i32>("missing").err(),
        Some(StreamErrCode::InvalidInput)
    );
    assert_eq!(
        block.base.send_output::<i32>("missing", 1).err(),
        Some(StreamErrCode::InvalidOutput)
    );
    assert_eq!(
        block.base.get_parameter_value::<bool>("missing").err(),
        Some(StreamErrCode::InvalidParameter)
    );
    assert_eq!(
        block.base.set_statics_value::<bool>("sum_value", true).err(),
        Some(StreamErrCode::WrongType)
    );
    let lists = block.base.get_input_list();
    assert_eq!(lists.len(), 1);
    assert_eq!(lists[0], "typed.test_input");
    assert_eq!(block.base.get_qualified_name("x"), "typed.x");
}

#[test]
fn test_chain_processes_blocks_in_order() {
    let mut first = TestBlock::new("first");
    first.base.set_statics_value::<i32>("sum_value", 1).unwrap();
    first.init().unwrap();
    let mut second = TestBlock::new("second");
    second.base.set_statics_value::<i32>("sum_value", 2).unwrap();
    second.init().unwrap();

    let first_in = first.base.get_input_channel::<i32>("test_input").unwrap();
    let second_in = second.base.get_input_channel::<i32>("test_input").unwrap();
    let _ = first.base.connect("test_output", second_in);
    let (out_sender, out_receiver) = std::sync::mpsc::sync_channel::<i32>(50);
    let _ = second.base.connect("test_output", out_sender);

    let mut chain = ProcessorChain::new("pipeline".to_string());
    chain.add_processor(first);
    chain.add_processor(second);

    let _ = first_in.send(10);
    chain.process().unwrap();
    // first adds 1, second adds 2 in the same sweep.
    assert_eq!(out_receiver.recv().unwrap(), 13);
    chain.stop().unwrap();
}

#[test]
fn test_mode_switch_quiesces_and_keeps_snapshot() {
    let mut manager: ProcessorManager<TestBlock> = ProcessorManager::new();

    let mut b0 = TestBlock::new("b0");
    b0.base.set_statics_value::<i32>("sum_value", 0).unwrap();
    b0.init().unwrap();
    b0.run().unwrap();
    let mut chain0 = ProcessorChain::new("chain0".to_string());
    chain0.add_processor(b0);
    let mut mode0 = ProcessorMode::new("mode0");
    mode0.add_chain(chain0);

    let mut b1 = TestBlock::new("b1");
    b1.base.set_statics_value::<i32>("sum_value", 0).unwrap();
    let mut chain1 = ProcessorChain::new("chain1".to_string());
    chain1.add_processor(b1);
    let mut mode1 = ProcessorMode::new("mode1");
    mode1.add_chain(chain1);

    manager.add_mode(mode0);
    manager.add_mode(mode1);
    assert_eq!(manager.current_mode_index(), 0);

    manager.memory_mode_mut(0).update_parameters("b0.counter", Value::I32(7));

    assert!(manager.switch_mode(2).is_err());
    assert_eq!(manager.current_mode_index(), 0);

    manager.switch_mode(1).unwrap();
    assert_eq!(manager.current_mode_index(), 1);
    assert_eq!(manager.memory().current_mode_index(), 1);

    // The old mode's driver work is quiesced: its block is Stopped.
    let old_mode = manager.mode_at(0).unwrap();
    assert!(old_mode.chain_at(0).block_at(0).check_state(StreamingState::Stopped));

    // The old mode's memory snapshot survives the switch.
    let old_memory = manager.memory().get_memory_mode(0).unwrap();
    assert_eq!(old_memory.get_parameters(&"b0.counter".to_string()), Some(Value::I32(7)));

    // Switching to the current index is a no-op.
    manager.switch_mode(1).unwrap();
    assert_eq!(manager.current_mode_index(), 1);
}

#[test]
fn test_mode_process_all_drives_every_chain() {
    let mut block = TestBlock::new("solo");
    block.base.set_statics_value::<i32>("sum_value", 4).unwrap();
    block.init().unwrap();
    let feeder = block.base.get_input_channel::<i32>("test_input").unwrap();
    let (out_sender, out_receiver) = std::sync::mpsc::sync_channel::<i32>(50);
    let _ = block.base.connect("test_output", out_sender);

    let mut chain = ProcessorChain::new("only".to_string());
    chain.add_processor(block);
    let mut mode = ProcessorMode::new("mode");
    mode.add_chain(chain);
    assert_eq!(mode.chain_count(), 1);

    let _ = feeder.send(1);
    mode.process_all().unwrap();
    assert_eq!(out_receiver.recv().unwrap(), 5);
    mode.stop().unwrap();
    assert!(mode.chain_at(0).block_at(0).check_state(StreamingState::Stopped));
}
