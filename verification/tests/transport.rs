use remote_wallet::errors::RemoteWalletError;
use remote_wallet::transport::mock_transport::MockTransport;
use remote_wallet::transport::transport_trait::Transport;

#[test]
fn test_mock_transport_basic() {
    let mut transport = MockTransport::new();

    assert!(!transport.is_connected());

    assert!(transport.connect().is_ok());
    assert!(transport.is_connected());

    transport.disconnect();
    assert!(!transport.is_connected());
}

#[test]
fn test_mock_transport_write_read() {
    let mut transport = MockTransport::new();
    transport.connect().unwrap();

    let data = b"test data";
    let result = transport.write(data);
    assert!(result.is_ok());
    assert_eq!(result.unwrap(), data.len());

    let result = transport.read();
    assert!(result.is_ok());
    assert!(result.unwrap().is_empty());
}

#[test]
fn test_mock_transport_not_connected() {
    let transport = MockTransport::new();

    let data = b"test data";
    let result = transport.write(data);
    assert!(matches!(result, Err(RemoteWalletError::Protocol(_))));

    let result = transport.read();
    assert!(matches!(result, Err(RemoteWalletError::Protocol(_))));
}

#[test]
fn test_transport_trait_object() {
    let mut transport: Box<dyn Transport> = Box::new(MockTransport::new());

    assert!(transport.connect().is_ok());
    assert!(transport.is_connected());

    let data = b"test";
    assert!(transport.write(data).is_ok());
    assert!(transport.read().is_ok());

    transport.disconnect();
    assert!(!transport.is_connected());
}

#[test]
fn mock_transport_queues_and_history() {
    let mut transport = MockTransport::new();
    transport.add_read_data(vec![1, 2, 3]);
    assert!(transport.get_write_history().is_empty());
    transport.clear_write_history();
    assert!(transport.get_write_history().is_empty());
    let transport = MockTransport::default();
    assert!(!transport.is_connected());
}

#[test]
fn mock_transport_reads_queued_data_first_in_first_out() {
    let mut t = MockTransport::new();
    t.connect().unwrap();
    t.add_read_data(vec![1]);
    t.add_read_data(vec![2, 3]);
    assert_eq!(t.read(), Ok(vec![1]));
    assert_eq!(t.read(), Ok(vec![2, 3]));
    assert_eq!(t.read(), Ok(vec![]));
}

#[test]
fn mock_transport_records_each_write_in_order() {
    let mut t = MockTransport::new();
    assert!(t.write(&[9]).is_err());
    assert!(t.get_write_history().is_empty());
    t.connect().unwrap();
    assert_eq!(t.write(&[1, 2]), Ok(2));
    assert_eq!(t.write(&[3]), Ok(1));
    assert_eq!(t.get_write_history(), vec![vec![1, 2], vec![3]]);
    t.clear_write_history();
    assert!(t.get_write_history().is_empty());
}
