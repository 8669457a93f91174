//! Connector behavior: FIFO order, fan-out, the empty fan-out no-op, and
//! the partial fan-out on a dropped downstream.

use stream_engine::connectors::Input;
use stream_engine::connectors::Output;

#[test]
fn test_input() {
    let mut test_input = Input::<f64>::new("test_input");
    let _ = test_input.send(0.8);
    let mut received = test_input.recv().unwrap();
    assert_eq!(received, 0.8);
    test_input.send(1.0).unwrap();
    test_input.send(2.0).unwrap();
    test_input.send(3.0).unwrap();
    received = test_input.recv().unwrap();
    assert_eq!(received, 1.0);
    received = test_input.recv().unwrap();
    assert_eq!(received, 2.0);
    received = test_input.recv().unwrap();
    assert_eq!(received, 3.0);
}

#[test]
fn connectors_test_input() {
    let mut test_input = Input::<f64>::new("test_input");
    let _ = test_input.send(0.8);
    let mut received = test_input.recv().unwrap();
    assert_eq!(received, 0.8);
    test_input.send(1.0).unwrap();
    test_input.send(2.0).unwrap();
    test_input.send(3.0).unwrap();
    received = test_input.recv().unwrap();
    assert_eq!(received, 1.0);
    received = test_input.recv().unwrap();
    assert_eq!(received, 2.0);
    received = test_input.recv().unwrap();
    assert_eq!(received, 3.0);
}

#[test]
fn test_output() {
    let mut test_output = Output::<u32>::new("test_output");
    let mut test_input = Input::<u32>::new("test_input");
    test_output.connect(test_input.sender());
    test_output.send(1).unwrap();
    test_output.send(2).unwrap();
    let mut recv = test_input.recv().unwrap();
    println!("Received {}", recv);
    assert_eq!(recv, 1);
    recv = test_input.recv().unwrap();
    assert_eq!(recv, 2);
}

#[test]
fn connectors_test_output() {
    let mut test_output = Output::<u32>::new("test_output");
    let mut test_input = Input::<u32>::new("test_input");
    test_output.connect(test_input.sender());
    test_output.send(1).unwrap();
    test_output.send(2).unwrap();
    let mut recv = test_input.recv().unwrap();
    println!("Received {}", recv);
    assert_eq!(recv, 1);
    recv = test_input.recv().unwrap();
    assert_eq!(recv, 2);
}

#[test]
fn test_output_without_senders_is_noop() {
    let test_output = Output::<u32>::new("lonely");
    assert!(test_output.send(1).is_ok());
}

#[test]
fn test_output_fan_out_order() {
    let mut test_output = Output::<u32>::new("fan");
    let mut first = Input::<u32>::new("first");
    let mut second = Input::<u32>::new("second");
    test_output.connect(first.sender());
    test_output.connect(second.sender());
    test_output.send(1).unwrap();
    test_output.send(2).unwrap();
    assert_eq!(first.recv().unwrap(), 1);
    assert_eq!(first.recv().unwrap(), 2);
    assert_eq!(second.recv().unwrap(), 1);
    assert_eq!(second.recv().unwrap(), 2);
}

#[test]
fn test_output_partial_delivery_on_dropped_downstream() {
    let mut test_output = Output::<u32>::new("fan");
    let mut first = Input::<u32>::new("first");
    test_output.connect(first.sender());
    {
        let dropped = Input::<u32>::new("dropped");
        test_output.connect(dropped.sender());
    }
    let mut third = Input::<u32>::new("third");
    test_output.connect(third.sender());
    let result = test_output.send(7);
    assert!(result.is_err());
    assert_eq!(first.recv().unwrap(), 7);
}

#[test]
fn test_input_accepts_a_burst_below_capacity() {
    let mut test_input = Input::<u32>::new("burst");
    for k in 0..50 {
        assert!(test_input.send(k).is_ok());
    }
    for k in 0..50 {
        assert_eq!(test_input.recv().unwrap(), k);
    }
}
