use kama_core::io::{AudioConfig, EngineAction, EngineControl};

#[test]
fn audio_config_defaults() {
    let config = AudioConfig::default();
    assert_eq!(config.sample_rate, 48000);
    assert_eq!(config.buffer_size, 128);
    assert_eq!(config.channels, 2);
    assert_eq!(config.latency_ms, 5);
    assert_eq!(config.interleaved_len(), Some(256));
    let huge = AudioConfig { buffer_size: u32::MAX, channels: u32::MAX, ..config };
    if usize::BITS == 32 {
        assert_eq!(huge.interleaved_len(), None);
    }
}

#[test]
fn engine_loop_reads_processes_and_stops() {
    let mut control = EngineControl::new();
    assert_eq!(control.next_step(), EngineAction::Stop);
    control.start();
    assert!(control.is_running());
    assert_eq!(control.next_step(), EngineAction::Read);
    assert_eq!(control.after_read(64, 256), EngineAction::Process(64));
    assert_eq!(control.after_read(0, 256), EngineAction::Read);
    control.stop();
    assert_eq!(control.after_read(0, 256), EngineAction::Stop);
    assert_eq!(control.after_read(3, 256), EngineAction::Process(3));
    assert_eq!(control.next_step(), EngineAction::Stop);
}
