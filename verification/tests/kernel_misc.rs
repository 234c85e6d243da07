use mathcore::kernel::bus::{Bus, BusConfig, Message, MessageMetadata, MessagePriority, RequestBuilder};
use mathcore::kernel::error::ErrorKind;
use mathcore::kernel::sandbox::{ExecutionResult, Sandbox, SandboxConfig, SandboxTrait};
use mathcore::kernel::streaming::{
    BackpressureConfig, StreamHeader, StreamMessage, StreamMessageType, StreamingTransport,
};
use std::collections::HashSet;

#[test]
fn test_sandbox_create() {
    let sandbox = Sandbox::new();
    assert!(sandbox.is_active());
}

#[test]
fn test_sandbox_execution() {
    let sandbox = Sandbox::new();
    let result = sandbox.execute(b"1 + 2").unwrap();
    assert_eq!(result.exit_code, 0);
    assert_eq!(result.stdout, b"Executed".to_vec());
    assert!(!result.killed);
}

#[test]
fn test_sandbox_config_default() {
    let config = SandboxConfig::default();
    assert_eq!(config.max_memory, 256 * 1024 * 1024);
    assert_eq!(config.max_cpu_time, 30_000);
    assert_eq!(config.max_wall_time, 60_000);
    assert!(!config.seccomp_enabled);
    assert_eq!(config.max_processes, 4);
    assert_eq!(config.max_file_size, 64 * 1024 * 1024);
}

#[test]
fn test_sandbox_config_custom() {
    let mut syscalls = HashSet::new();
    syscalls.insert("read".to_string());
    syscalls.insert("write".to_string());

    let config = SandboxConfig {
        max_memory: 512 * 1024 * 1024,
        max_cpu_time: 60_000,
        max_wall_time: 120_000,
        seccomp_enabled: true,
        allowed_syscalls: syscalls,
        max_processes: 8,
        max_file_size: 128 * 1024 * 1024,
    };

    assert_eq!(config.max_memory, 512 * 1024 * 1024);
    assert!(config.seccomp_enabled);
    assert!(config.allowed_syscalls.contains("read"));
}

#[test]
fn sandbox_config_clone_keeps_syscalls() {
    let mut config = SandboxConfig::default();
    config.allowed_syscalls.insert("read".to_string());
    let copy = config.clone();
    assert!(copy.allowed_syscalls.contains("read"));
    assert_eq!(copy.max_memory, config.max_memory);
}

#[test]
fn test_sandbox_memory_tracking() {
    let sandbox = Sandbox::new();
    assert_eq!(sandbox.get_memory_usage(), 0);
    assert_eq!(sandbox.get_total_execution_time(), 0);
}

#[test]
fn test_sandbox_execution_empty() {
    let sandbox = Sandbox::new();
    let result = sandbox.execute(b"");
    assert!(result.is_err());
    match result.unwrap_err().kind() {
        ErrorKind::InvalidArgument(m) => assert_eq!(m, "Empty code"),
        _ => panic!("wrong error"),
    }
}

#[test]
fn test_execution_result() {
    let result = ExecutionResult {
        exit_code: 0,
        stdout: b"hello".to_vec(),
        stderr: b"".to_vec(),
        killed: false,
        kill_reason: None,
    };
    assert_eq!(result.exit_code, 0);
    assert!(!result.killed);
}

#[test]
fn test_execution_result_killed() {
    let result = ExecutionResult {
        exit_code: -1,
        stdout: b"".to_vec(),
        stderr: b"timeout".to_vec(),
        killed: true,
        kill_reason: Some("Timeout".to_string()),
    };
    assert!(result.killed);
    assert_eq!(result.kill_reason, Some("Timeout".to_string()));
}

#[test]
fn test_sandbox_trait() {
    let sandbox = Sandbox::new();
    let result = SandboxTrait::execute(&sandbox, b"test").unwrap();
    assert_eq!(result.exit_code, 0);
    assert_eq!(SandboxTrait::get_memory_usage(&sandbox), 0);
}

#[test]
fn sandbox_with_config_is_active() {
    let mut config = SandboxConfig::default();
    config.max_memory = 100;
    let sandbox = Sandbox::with_config(config);
    assert!(sandbox.is_active());
    assert_eq!(sandbox.execute(b"x").unwrap().exit_code, 0);
}

#[test]
fn test_backpressure_config_default() {
    let config = BackpressureConfig::default();
    assert_eq!(config.max_queue_size, 1000);
    assert_eq!(config.high_water_mark, 800);
    assert_eq!(config.low_water_mark, 200);
}

#[test]
fn transport_backpressure_hysteresis() {
    let mut transport = StreamingTransport::new(BackpressureConfig::default());
    assert!(!transport.is_paused());
    assert!(!transport.check_backpressure(500));
    assert!(!transport.is_paused());
    assert!(transport.check_backpressure(800));
    assert!(transport.is_paused());
    // Already paused: no new pause is reported, and it stays paused between the marks.
    assert!(!transport.check_backpressure(900));
    assert!(!transport.check_backpressure(500));
    assert!(transport.is_paused());
    assert!(!transport.check_backpressure(200));
    assert!(!transport.is_paused());
}

#[test]
fn test_bus_create() {
    let bus = Bus::new(BusConfig::default());
    let stats = bus.get_stats();
    assert_eq!(stats.messages_sent, 0);
}

#[test]
fn test_bus_subscribe() {
    let mut bus = Bus::default();
    let _sub = bus.subscribe("test-topic");
    let stats = bus.get_stats();
    assert!(stats.subscriptions_count > 0);
}

fn message(topic: &str) -> Message {
    Message {
        payload: b"hello".to_vec(),
        metadata: MessageMetadata {
            topic: topic.to_string(),
            priority: MessagePriority::Normal,
            timestamp: std::time::Instant::now(),
            sender: "test".to_string(),
        },
    }
}

#[test]
fn test_bus_publish() {
    let mut bus = Bus::default();
    let mut sub = bus.subscribe("test-topic");

    bus.publish("test-topic", message("test-topic"));

    // Check stats were updated
    let stats = bus.get_stats();
    assert_eq!(stats.messages_sent, 1);
    let got = sub.receiver.try_recv().unwrap();
    assert_eq!(got.payload, b"hello".to_vec());
}

#[test]
fn bus_publish_without_subscribers_counts_nothing() {
    let mut bus = Bus::default();
    bus.publish("nobody", message("nobody"));
    let stats = bus.get_stats();
    assert_eq!(stats.messages_sent, 0);
    assert!(stats.topics.is_empty());
}

#[test]
fn bus_topics_listed_once() {
    let mut bus = Bus::default();
    let _a = bus.subscribe("a");
    let _b = bus.subscribe("a");
    let _c = bus.subscribe("b");
    let stats = bus.get_stats();
    assert_eq!(stats.subscriptions_count, 3);
    let mut topics = stats.topics.clone();
    topics.sort();
    assert_eq!(topics, vec!["a".to_string(), "b".to_string()]);
}

#[test]
fn test_request_builder() {
    let request = RequestBuilder::new("test-topic")
        .payload(b"test data".to_vec())
        .timeout(std::time::Duration::from_secs(5))
        .build();

    assert_eq!(request.topic, "test-topic");
    assert_eq!(request.payload, b"test data".to_vec());
    assert_eq!(request.timeout, std::time::Duration::from_secs(5));
}

#[test]
fn test_transport_creation() {
    let transport = StreamingTransport::new(BackpressureConfig::default());
    assert!(transport.sender().is_some());
}

#[test]
fn transport_channel_carries_messages_and_hands_out_receiver_once() {
    let mut transport = StreamingTransport::new(BackpressureConfig::default());
    let sender = transport.sender().unwrap();
    let mut receiver = transport.receiver().unwrap();
    assert!(transport.receiver().is_none());
    let msg = StreamMessage {
        header: StreamHeader {
            msg_type: StreamMessageType::ChunkData,
            stream_id: 7,
            sequence: 1,
            timestamp_ns: 0,
            payload_size: 2,
        },
        payload: vec![1, 2],
    };
    sender.try_send(msg).unwrap();
    let got = receiver.try_recv().unwrap();
    assert_eq!(got.header.stream_id, 7);
    assert_eq!(got.payload, vec![1, 2]);
}

#[test]
fn bus_publish_reaches_every_subscriber_of_the_topic() {
    let mut bus = Bus::default();
    let mut first = bus.subscribe("t");
    let mut second = bus.subscribe("t");
    let mut other = bus.subscribe("u");
    bus.publish("t", message("t"));
    assert_eq!(first.receiver.try_recv().unwrap().metadata.sender, "test");
    assert_eq!(second.receiver.try_recv().unwrap().payload, b"hello".to_vec());
    assert!(other.receiver.try_recv().is_err());
}

#[test]
fn sandbox_with_seccomp_asked_for_runs_code() {
    let mut config = SandboxConfig::default();
    config.seccomp_enabled = true;
    let sandbox = Sandbox::with_config(config);
    assert_eq!(sandbox.execute(b"x").unwrap().exit_code, 0);
    assert!(sandbox.execute(b"").is_err());
}
