use mathcore::render::cache::L1Cache as RenderL1Cache;
use mathcore::render::data::{ArrowBufferInt, ArrowReader, ArrowWriter};
use mathcore::render::protocol::{
    graphics_frame_is_truncated, message_is_truncated, progress_is_truncated, proof_step_is_truncated,
    FrameDecoder, FrameEncoder,
};
use mathcore::compute::replay::ComputationTrace;
use mathcore::render::replay_gui::{ReplayProgress, ReplayViewer};
use mathcore::render::shm::RingBuffer;
use mathcore::render::simd::Matrix;
use mathcore::render::stream::{
    BackpressureConfig, BackpressureState, ControlMessage, GraphicsFrameData, ProgressData,
    ProgressStatus, ProofStepData, StepType, StreamBuffer, StreamError, StreamMessage,
};
use mathcore::render::window::{Key, Modifiers, MouseButton, Window, WindowBuilder};
use mathcore::render::Error;

fn sample_frame() -> GraphicsFrameData {
    GraphicsFrameData {
        frame_id: 1,
        timestamp: 1234567890,
        width: 800,
        height: 600,
        pixels: vec![0u8; 800 * 600 * 4],
        shm_id: "shm://frame1".to_string(),
    }
}

#[test]
fn test_encode_decode_graphics_frame() {
    let encoder = FrameEncoder::new();
    let decoder = FrameDecoder::new();

    let frame = sample_frame();

    let encoded = encoder.encode_graphics_frame(&frame).unwrap();
    let decoded = decoder.decode_graphics_frame(&encoded).unwrap();

    assert_eq!(frame.frame_id, decoded.frame_id);
    assert_eq!(frame.width, decoded.width);
    assert_eq!(frame.height, decoded.height);
}

#[test]
fn graphics_frame_round_trip_keeps_every_field() {
    let frame = GraphicsFrameData {
        frame_id: u64::MAX,
        timestamp: -5,
        width: 3,
        height: 2,
        pixels: vec![1, 2, 3, 4, 5],
        shm_id: "shm://π".to_string(),
    };
    let encoded = FrameEncoder::new().encode_graphics_frame(&frame).unwrap();
    assert_eq!(&encoded[0..4], b"GFX1");
    assert_eq!(encoded.len(), 4 + 8 + 8 + 2 + 2 + 4 + 5 + 4 + "shm://π".len());
    assert!(!graphics_frame_is_truncated(&encoded));
    let decoded = FrameDecoder::new().decode_graphics_frame(&encoded).unwrap();
    assert_eq!(decoded.frame_id, u64::MAX);
    assert_eq!(decoded.timestamp, -5);
    assert_eq!(decoded.pixels, vec![1, 2, 3, 4, 5]);
    assert_eq!(decoded.shm_id, "shm://π");
}

#[test]
fn graphics_frame_decode_errors() {
    let decoder = FrameDecoder::new();
    match decoder.decode_graphics_frame(b"GFX1") {
        Err(StreamError::Serialization(m)) => assert_eq!(m, "Data too short"),
        _ => panic!("expected a serialization error"),
    }
    let mut encoded = FrameEncoder::new().encode_graphics_frame(&sample_frame()).unwrap();
    encoded[0] = b'X';
    match decoder.decode_graphics_frame(&encoded) {
        Err(StreamError::Serialization(m)) => assert_eq!(m, "Invalid magic"),
        _ => panic!("expected a serialization error"),
    }
    let encoded = FrameEncoder::new().encode_graphics_frame(&sample_frame()).unwrap();
    assert!(graphics_frame_is_truncated(&encoded[..encoded.len() - 1]));
}

#[test]
fn step_type_and_status_codes() {
    assert_eq!(StepType::from_u8(0), StepType::Axiom);
    assert_eq!(StepType::from_u8(7), StepType::Verification);
    assert_eq!(StepType::from_u8(200), StepType::Axiom);
    assert_eq!(StepType::from_u8(14), StepType::Computation);
    assert_eq!(ProgressStatus::from_u8(2), ProgressStatus::Completed);
    assert_eq!(ProgressStatus::from_u8(99), ProgressStatus::Cancelled);
}

#[test]
fn test_ring_buffer() {
    let mut buffer = RingBuffer::new(10);

    buffer.write(b"Hello");
    assert_eq!(buffer.available(), 5);

    let data = buffer.read(5);
    assert_eq!(data, b"Hello");
    assert!(buffer.is_empty());
}

#[test]
fn ring_buffer_wraps_around_in_order() {
    let mut buffer = RingBuffer::new(4);
    assert_eq!(buffer.write(b"abc"), 3);
    assert_eq!(buffer.read(2), b"ab".to_vec());
    assert_eq!(buffer.write(b"de"), 2);
    assert_eq!(buffer.available(), 3);
    assert_eq!(buffer.read(10), b"cde".to_vec());
    assert!(buffer.is_empty());
    assert_eq!(buffer.read(1), Vec::<u8>::new());
}

#[test]
fn test_matrix_creation() {
    let m: Matrix<f32> = Matrix::new(3, 3);
    assert_eq!(m.dims(), (3, 3));
    assert_eq!(m[(0, 0)], 0.0);
}

#[test]
fn test_matrix_identity() {
    let m = Matrix::<f32>::identity(3);
    assert_eq!(m[(0, 0)], 1.0);
    assert_eq!(m[(1, 1)], 1.0);
}

#[test]
fn matrix_from_flat_is_row_major() {
    let m: Matrix<i32> = Matrix::from_flat(2, 3, vec![1, 2, 3, 4, 5, 6]);
    assert_eq!(m.dims(), (2, 3));
    assert_eq!(m.get(1, 0), 4);
    assert_eq!(m[(0, 2)], 3);
    assert_eq!(m.data(), &[1, 2, 3, 4, 5, 6]);
    let id = Matrix::<u64>::identity(2);
    assert_eq!(id.data(), &[1, 0, 0, 1]);
}

#[test]
fn test_window() {
    let window = Window::new("Test", 800, 600);
    assert_eq!(window.width(), 800);
    assert_eq!(window.height(), 600);
    assert_eq!(window.title(), "Test");
}

#[test]
fn window_test_window_builder() {
    let window = WindowBuilder::new().with_title("MathCore").with_size(1024, 768).resizable(true).build();

    assert_eq!(window.width(), 1024);
    assert_eq!(window.height(), 768);
    assert_eq!(window.title(), "MathCore");
}

#[test]
fn test_window_creation() {
    let window = Window::new("Test", 800, 600);
    assert_eq!(window.width(), 800);
    assert_eq!(window.height(), 600);
    assert_eq!(window.title(), "Test");
}

#[test]
fn test_window_resize() {
    let mut window = Window::new("Test", 800, 600);
    window.resize(1024, 768);
    assert_eq!(window.width(), 1024);
    assert_eq!(window.height(), 768);
    assert_eq!(window.size(), (1024, 768));
}

#[test]
fn tests_test_window_builder() {
    let window = WindowBuilder::new()
        .with_title("MathCore Viz")
        .with_size(1280, 720)
        .resizable(true)
        .decorated(true)
        .build();

    assert_eq!(window.width(), 1280);
    assert_eq!(window.height(), 720);
    assert_eq!(window.title(), "MathCore Viz");
}

#[test]
fn window_builder_defaults_and_event_loop() {
    let window = WindowBuilder::default().build();
    assert_eq!(window.size(), (800, 600));
    assert_eq!(window.title(), "MathCore");
    let event_loop = WindowBuilder::new().with_title("Loop").with_size(10, 20).build_event_loop();
    let window = event_loop.create_window();
    assert_eq!(window.title(), "Loop");
    assert_eq!(window.size(), (10, 20));
}

#[test]
fn test_modifiers() {
    let mut mods = Modifiers::default();
    assert!(!mods.shift);
    assert!(!mods.ctrl);

    mods.shift = true;
    mods.ctrl = true;
    assert!(mods.shift);
    assert!(mods.ctrl);
}

#[test]
fn test_key_variants() {
    assert_ne!(Key::A, Key::B);
    assert_eq!(Key::ArrowUp, Key::ArrowUp);
}

#[test]
fn test_mouse_button_variants() {
    assert_eq!(MouseButton::Left, MouseButton::Left);
    assert_ne!(MouseButton::Left, MouseButton::Right);
}

#[test]
fn test_error_types() {
    let err: Error = Error::Wgpu("test error".to_string());
    assert!(err.to_string().contains("test error"));

    let err: Error = Error::Render("render error".to_string());
    assert!(err.to_string().contains("render error"));
    assert_eq!(Error::Io("disk".to_string()).to_string(), "IO error: disk");
}

#[test]
fn test_l1_cache() {
    let mut cache: RenderL1Cache<String, i32> = RenderL1Cache::new(10, 60);
    cache.insert("key1".to_string(), 42);
    assert_eq!(cache.get(&"key1".to_string()), Some(42));
}

#[test]
fn render_l1_cache_full_evicts_oldest() {
    let mut cache: RenderL1Cache<String, i32> = RenderL1Cache::new(2, 60);
    cache.insert("a".to_string(), 1);
    cache.insert("b".to_string(), 2);
    cache.insert("c".to_string(), 3);
    assert_eq!(cache.len(), 2);
    assert_eq!(cache.get("a"), None);
    assert_eq!(cache.get("b"), Some(2));
    assert_eq!(cache.get("c"), Some(3));
}

#[test]
fn test_arrow_buffer_int() {
    let data = vec![1i64, 2, 3, 4, 5];
    let buffer = ArrowBufferInt::from_data("test", &data);

    assert_eq!(buffer.len(), 5);
    assert_eq!(buffer.as_slice(), &[1, 2, 3, 4, 5]);
    assert!(!buffer.is_empty());
}

#[test]
fn arrow_writer_concatenates() {
    let mut writer = ArrowWriter::new();
    writer.write(b"ab");
    writer.write(b"cd");
    assert_eq!(writer.finalize(), b"abcd".to_vec());
}

#[test]
fn test_backpressure_state() {
    let config = BackpressureConfig { max_pending: 5, window_size: 2, timeout_ms: 100 };

    let mut state = BackpressureState::new(config);

    // Mark pending and release
    state.mark_pending();
    assert_eq!(state.pending(), 1);
    state.release();
    assert_eq!(state.pending(), 0);

    // Test pause/resume
    assert!(!state.is_paused());
    state.pause();
    assert!(state.is_paused());
    state.resume();
    assert!(!state.is_paused());
}

#[test]
fn backpressure_acquire_respects_limits() {
    let config = BackpressureConfig { max_pending: 1, window_size: 2, timeout_ms: 100 };
    let mut state = BackpressureState::new(config);
    assert!(state.try_acquire());
    assert!(state.acquire());
    state.mark_pending();
    assert!(!state.try_acquire());
    assert!(!state.acquire());
    state.release();
    state.pause();
    assert!(!state.acquire());
    assert_eq!(BackpressureConfig::default().max_pending, 1000);
}

#[test]
fn replay_progress_caps_at_total() {
    let mut progress = ReplayProgress::new(10);
    progress.set(5);
    assert_eq!(progress.current(), 5);
    progress.set(50);
    assert_eq!(progress.current(), 10);
    assert_eq!(progress.total(), 10);
}

fn sample_step() -> ProofStepData {
    ProofStepData {
        step_id: 42,
        proof_id: 1,
        content: "test proof".to_string(),
        step_type: StepType::Proof,
        dependencies: vec![1, 2],
        timestamp: 1234567890,
        confidence_bits: 0.99f32.to_bits(),
    }
}

#[test]
fn test_encode_decode_proof_step() {
    let encoder = FrameEncoder::new();
    let decoder = FrameDecoder::new();

    let step = sample_step();

    let encoded = encoder.encode_proof_step(&step).unwrap();
    let decoded = decoder.decode_proof_step(&encoded).unwrap();

    assert_eq!(step.step_id, decoded.step_id);
    assert_eq!(step.proof_id, decoded.proof_id);
    assert_eq!(step.content, decoded.content);
    assert_eq!(step.step_type, decoded.step_type);
    assert_eq!(decoded.dependencies, vec![1, 2]);
    assert_eq!(decoded.timestamp, 1234567890);
    assert_eq!(f32::from_bits(decoded.confidence_bits), 0.99f32);
}

#[test]
fn proof_step_layout_and_errors() {
    let encoded = FrameEncoder::new().encode_proof_step(&sample_step()).unwrap();
    assert_eq!(&encoded[0..4], b"PRF1");
    assert_eq!(encoded.len(), 4 + 8 + 8 + 4 + 10 + 1 + 4 + 16 + 8 + 4);
    assert_eq!(encoded[24 + 10], 4);
    assert!(!proof_step_is_truncated(&encoded));
    assert!(proof_step_is_truncated(&encoded[..encoded.len() - 1]));
    let mut bad = encoded.clone();
    bad[24] = 0xff;
    // Content that is not UTF-8 is refused before the later fields are read.
    assert!(!proof_step_is_truncated(&bad[..36]));
    assert!(proof_step_is_truncated(&bad[..30]));
    match FrameDecoder::new().decode_proof_step(&bad) {
        Err(StreamError::Serialization(m)) => assert!(m.contains("utf-8") || m.contains("UTF-8")),
        _ => panic!("expected a serialization error"),
    }
    match FrameDecoder::new().decode_proof_step(b"PRF1") {
        Err(StreamError::Serialization(m)) => assert_eq!(m, "Data too short"),
        _ => panic!("expected a serialization error"),
    }
}

fn sample_progress() -> ProgressData {
    ProgressData {
        proof_id: 9,
        current_step: 3,
        total_steps: 10,
        percentage_bits: 30.0f32.to_bits(),
        status: ProgressStatus::Running,
        message: "step 3 of 10".to_string(),
        timestamp: -1,
    }
}

#[test]
fn progress_round_trip() {
    let encoded = FrameEncoder::new().encode_progress(&sample_progress()).unwrap();
    assert_eq!(&encoded[0..4], b"PRG1");
    assert_eq!(encoded.len(), 45 + "step 3 of 10".len());
    assert!(!progress_is_truncated(&encoded));
    assert!(progress_is_truncated(&encoded[..40]));
    let decoded = FrameDecoder::new().decode_progress(&encoded).unwrap();
    assert_eq!(decoded.proof_id, 9);
    assert_eq!(decoded.current_step, 3);
    assert_eq!(decoded.total_steps, 10);
    assert_eq!(f32::from_bits(decoded.percentage_bits), 30.0);
    assert_eq!(decoded.status, ProgressStatus::Running);
    assert_eq!(decoded.message, "step 3 of 10");
    assert_eq!(decoded.timestamp, -1);
}

#[test]
fn any_message_round_trips_by_its_magic() {
    let encoder = FrameEncoder::new();
    let decoder = FrameDecoder::new();
    let messages = vec![
        StreamMessage::ProofStep(sample_step()),
        StreamMessage::GraphicsFrame(sample_frame()),
        StreamMessage::Progress(sample_progress()),
        StreamMessage::Heartbeat,
        StreamMessage::Control(ControlMessage::Start),
    ];
    for msg in &messages {
        let bytes = encoder.encode(msg).unwrap();
        assert!(!message_is_truncated(&bytes));
        let back = decoder.decode(&bytes).unwrap();
        assert_eq!(std::mem::discriminant(&back), std::mem::discriminant(msg));
    }
    assert_eq!(encoder.encode(&StreamMessage::Heartbeat).unwrap(), b"HEAR".to_vec());
    // The kind of control is not sent: every control message comes back as Start.
    let bytes = encoder.encode(&StreamMessage::Control(ControlMessage::Pause)).unwrap();
    assert_eq!(bytes, b"CTRL".to_vec());
    match decoder.decode(&bytes).unwrap() {
        StreamMessage::Control(c) => assert_eq!(c, ControlMessage::Start),
        _ => panic!("expected a control message"),
    }
    match decoder.decode(b"ZZZZ") {
        Err(StreamError::Serialization(m)) => assert_eq!(m, "Unknown message type"),
        _ => panic!("expected a serialization error"),
    }
    match decoder.decode(b"PR") {
        Err(StreamError::Serialization(m)) => assert_eq!(m, "Data too short"),
        _ => panic!("expected a serialization error"),
    }
}

#[test]
fn stream_buffer_drops_oldest_when_full() {
    let mut buffer = StreamBuffer::new(2);
    assert!(buffer.is_empty());
    assert!(buffer.push(StreamMessage::Heartbeat));
    assert!(buffer.push(StreamMessage::Control(ControlMessage::Stop)));
    assert!(buffer.push(StreamMessage::Control(ControlMessage::Pause)));
    assert_eq!(buffer.len(), 2);
    match buffer.pop() {
        Some(StreamMessage::Control(c)) => assert_eq!(c, ControlMessage::Stop),
        _ => panic!("expected the second message"),
    }
    match buffer.pop() {
        Some(StreamMessage::Control(c)) => assert_eq!(c, ControlMessage::Pause),
        _ => panic!("expected the third message"),
    }
    assert!(buffer.pop().is_none());
    buffer.push(StreamMessage::Heartbeat);
    buffer.clear();
    assert_eq!(buffer.len(), 0);
    // A buffer of capacity zero still holds the latest message.
    let mut zero = StreamBuffer::new(0);
    zero.push(StreamMessage::Heartbeat);
    zero.push(StreamMessage::Heartbeat);
    assert_eq!(zero.len(), 1);
}

#[test]
fn arrow_reader_sees_all_bytes() {
    let mut writer = ArrowWriter::default();
    writer.write(b"ipc");
    let reader = ArrowReader::new(writer.finalize());
    assert!(reader.has_more());
    assert_eq!(reader.remaining(), b"ipc");
    let empty = ArrowReader::new(Vec::new());
    assert!(!empty.has_more());
    assert_eq!(empty.remaining(), b"");
}

#[test]
fn test_stream_buffer() {
    let mut buffer = StreamBuffer::new(3);

    buffer.push(StreamMessage::Heartbeat);
    buffer.push(StreamMessage::Heartbeat);
    buffer.push(StreamMessage::Heartbeat);

    assert_eq!(buffer.len(), 3);

    // Adding more evicts the oldest
    buffer.push(StreamMessage::Heartbeat);

    assert_eq!(buffer.len(), 3);
}

#[test]
fn test_arrow_writer_reader() {
    let data: Vec<f64> = vec![1.0, 2.0, 3.0];
    let bytes: Vec<u8> = data.iter().flat_map(|f| f.to_le_bytes()).collect();
    let mut writer = ArrowWriter::new();
    writer.write(&bytes);
    let bytes: Vec<u8> = data.iter().flat_map(|f| f.to_le_bytes()).collect();
    writer.write(&bytes);

    let ipc_data = writer.finalize();

    let reader = ArrowReader::new(ipc_data);
    assert!(reader.has_more());
}

#[test]
fn test_replay_viewer() {
    let mut trace = ComputationTrace::new("x^2 + 2x + 1");
    let vars = vec![("x".to_string(), 2.0f64.to_bits())];

    trace.add_step("Parse", "x^2 + 2*x + 1");
    trace.add_simplification("x", "Simplify");
    trace.add_evaluation("x", vars, 9.0f64.to_bits(), "Evaluate");
    trace.set_result(9.0f64.to_bits());

    let mut viewer = ReplayViewer::new(trace);

    assert!(viewer.is_at_start());
    assert!(!viewer.is_at_end());

    viewer.next();
    assert!(!viewer.is_at_start());

    viewer.prev();
    assert!(viewer.is_at_start());
}

#[test]
fn replay_viewer_reports_moves() {
    let mut trace = ComputationTrace::new("t");
    trace.add_step("a", "1");
    trace.add_step("b", "2");
    let mut viewer = ReplayViewer::new(trace);
    assert_eq!(viewer.total_steps(), 2);
    assert!(!viewer.prev());
    assert!(viewer.next());
    assert!(viewer.is_at_end());
    assert!(!viewer.next());
    viewer.jump_to(7);
    assert!(viewer.is_at_end());
    viewer.jump_to(0);
    assert!(viewer.is_at_start());
    assert!(viewer.shows_variables());
    viewer.toggle_variables();
    assert!(!viewer.shows_variables());
    assert_eq!(viewer.replayer().current_step().unwrap().expression, "1");
}

#[test]
fn render_l1_cache_freshness_by_age() {
    let mut cache: RenderL1Cache<String, i32> = RenderL1Cache::new(4, 60);
    cache.insert("k".to_string(), 5);
    assert_eq!(cache.get_at_age("k", 59), Some(5));
    assert_eq!(cache.get_at_age("k", 60), None);
    assert_eq!(cache.get_at_age("missing", 0), None);
    let mut expired: RenderL1Cache<String, i32> = RenderL1Cache::new(4, 0);
    expired.insert("k".to_string(), 5);
    assert_eq!(expired.get("k"), None);
}
