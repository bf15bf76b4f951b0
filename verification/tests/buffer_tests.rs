use kama_core::buffer::delay::DelayLine;
use kama_core::buffer::fan::{FanInBuffer, FanOutBuffer};
use kama_core::buffer::pipe::PipeBuffer;
use kama_core::buffer::ring::RingBuffer;
use kama_core::buffer::{AtomicStats, Sequence};
use kama_core::error::BufferError;
use std::sync::atomic::Ordering;

#[test]
fn test_atomic_stats() {
    let stats = AtomicStats::new();

    stats.record_write();
    stats.record_read();
    stats.record_underflow();
    stats.record_overflow();
    stats.update_peak(500);

    let snapshot = stats.counts();
    assert_eq!(snapshot.writes, 1);
    assert_eq!(snapshot.reads, 1);
    assert_eq!(snapshot.underflows, 1);
    assert_eq!(snapshot.overflows, 1);
    assert_eq!(snapshot.peak_fill, 500);
    // The peak is reported in thousandths of the recorded fill.
    assert!((snapshot.peak_fill as f32 / 1000.0 - 0.5).abs() < 0.001);
}

#[test]
fn test_sequence() {
    let seq = Sequence::new();
    assert_eq!(seq.load(Ordering::SeqCst), 0);

    seq.store(42, Ordering::SeqCst);
    assert_eq!(seq.load(Ordering::SeqCst), 42);

    seq.fetch_add(10, Ordering::SeqCst);
    assert_eq!(seq.load(Ordering::SeqCst), 52);
}

#[test]
fn stats_peak_only_rises_and_reset_clears() {
    let stats = AtomicStats::new();
    stats.update_peak(300);
    stats.update_peak(100);
    assert_eq!(stats.counts().peak_fill, 300);
    stats.record_write();
    stats.reset();
    let c = stats.counts();
    assert_eq!((c.writes, c.reads, c.underflows, c.overflows, c.peak_fill), (0, 0, 0, 0, 0));
}

#[test]
fn sequence_compare_exchange() {
    let seq = Sequence::new();
    assert_eq!(seq.compare_exchange(0, 5, Ordering::SeqCst, Ordering::SeqCst), Ok(0));
    assert_eq!(seq.compare_exchange(0, 7, Ordering::SeqCst, Ordering::SeqCst), Err(5));
    assert_eq!(seq.fetch_add(1, Ordering::SeqCst), 5);
}

#[test]
fn test_ring_buffer_f32() {
    let mut buffer = RingBuffer::<f32, 64>::new();

    buffer.write(42.0).unwrap();
    assert_eq!(buffer.available(), 1);

    let val = buffer.read().unwrap();
    assert_eq!(val, 42.0);
    assert_eq!(buffer.available(), 0);
}

#[test]
fn test_ring_buffer_f64() {
    let mut buffer = RingBuffer::<f64, 64>::new();

    buffer.write(42.0).unwrap();
    let val = buffer.read().unwrap();
    assert!((val - 42.0).abs() < 1e-10);
}

#[test]
fn test_ring_buffer_full() {
    let mut buffer = RingBuffer::<f32, 4>::new();

    for i in 0..4 {
        assert!(buffer.write(i as f32).is_ok());
    }

    assert!(buffer.write(4.0).is_err());
    assert_eq!(buffer.stats_counts().overflows, 1);
    assert!(buffer.is_full());
}

#[test]
fn test_ring_buffer_empty() {
    let mut buffer = RingBuffer::<f32, 4>::new();

    assert!(buffer.read().is_err());
    assert_eq!(buffer.stats_counts().underflows, 1);
    assert!(buffer.is_empty());
}

#[test]
fn test_ring_buffer_block_ops() {
    let mut buffer = RingBuffer::<f32, 64>::new();

    let write_data = [1.0, 2.0, 3.0, 4.0];
    let written = buffer.write_block(&write_data);
    assert_eq!(written, 4);

    let mut read_data = [0.0; 4];
    let read = buffer.read_block(&mut read_data);
    assert_eq!(read, 4);
    assert_eq!(read_data, write_data);
}

#[test]
fn test_ring_buffer_wrap_around() {
    let mut buffer = RingBuffer::<f32, 4>::new();

    for i in 0..3 {
        buffer.write(i as f32).unwrap();
    }

    for _ in 0..2 {
        let _ = buffer.read().unwrap();
    }

    buffer.write(3.0).unwrap();
    buffer.write(4.0).unwrap();

    assert_eq!(buffer.read().unwrap(), 2.0);
    assert_eq!(buffer.read().unwrap(), 3.0);
    assert_eq!(buffer.read().unwrap(), 4.0);
    assert!(buffer.read().is_err());
}

#[test]
fn ring_buffer_errors_and_partial_blocks() {
    let mut buffer = RingBuffer::<u32, 4>::new();
    assert_eq!(buffer.read(), Err(BufferError::Empty));
    assert_eq!(buffer.write_block(&[1, 2, 3, 4, 5, 6]), 4);
    assert_eq!(buffer.write(9), Err(BufferError::Full));
    assert_eq!(buffer.remaining(), 0);
    let mut out = [0u32; 3];
    assert_eq!(buffer.read_block(&mut out), 3);
    assert_eq!(out, [1, 2, 3]);
    let mut more = [7u32; 3];
    assert_eq!(buffer.read_block(&mut more), 1);
    assert_eq!(more, [4, 7, 7]);
    assert_eq!(buffer.capacity(), 4);
    buffer.write(8).unwrap();
    buffer.clear();
    assert_eq!(buffer.len(), 0);
}

#[test]
fn ring_buffer_many_wraps_keep_fifo_order() {
    let mut buffer = RingBuffer::<u32, 8>::new();
    let mut next_in = 0u32;
    let mut next_out = 0u32;
    for round in 0..100u32 {
        for _ in 0..(round % 7 + 1) {
            if buffer.write(next_in).is_ok() {
                next_in += 1;
            }
        }
        for _ in 0..(round % 5 + 1) {
            if let Ok(v) = buffer.read() {
                assert_eq!(v, next_out);
                next_out += 1;
            }
        }
    }
    assert_eq!(buffer.available() as u32, next_in - next_out);
}

#[test]
fn test_pipe_buffer_basic() {
    let mut buffer = PipeBuffer::<f32, 64>::new(0.0);

    let write_data = [42.0; 64];
    buffer.write(&write_data);

    assert!(buffer.has_data());
    assert_eq!(buffer.write_seq(), 1);

    let read_data = buffer.try_read().unwrap();
    assert_eq!(read_data[0], 42.0);
    assert_eq!(buffer.read_seq(), 1);
    assert!(buffer.is_caught_up());
}

#[test]
fn pipe_buffer_overwrites_unread_block() {
    let mut buffer = PipeBuffer::<u8, 2>::new(0);
    assert!(buffer.try_read().is_none());
    buffer.write(&[1, 2]);
    buffer.write(&[3, 4]);
    buffer.write(&[5, 6]);
    assert_eq!(buffer.overwrites(), 2);
    assert_eq!(buffer.try_read(), Some([5, 6]));
    assert!(buffer.try_read().is_none());
    assert_eq!(buffer.len(), 0);
    buffer.write(&[7, 8]);
    buffer.reset();
    assert!(!buffer.has_data());
}

#[test]
fn test_fan_out_buffer_basic() {
    let mut buffer = FanOutBuffer::<f32, 64, 3>::new(0.0);

    let data = [42.0; 64];
    buffer.write(&data);

    for i in 0..3 {
        let read = buffer.try_read(i).unwrap();
        assert_eq!(read[0], 42.0);
    }
}

#[test]
fn fan_out_each_consumer_reads_once() {
    let mut buffer = FanOutBuffer::<u8, 1, 2>::new(0);
    assert!(buffer.try_read(0).is_none());
    buffer.write(&[9]);
    assert!(buffer.has_new_data(1));
    assert_eq!(buffer.try_read(0), Some([9]));
    assert!(buffer.try_read(0).is_none());
    assert_eq!(buffer.try_read(1), Some([9]));
    assert!(buffer.try_read(5).is_none());
    assert_eq!(buffer.last_read_version(0), Some(1));
    assert_eq!(buffer.last_read_version(2), None);
    buffer.reset();
    assert_eq!(buffer.last_read_version(1), Some(0));
    assert!(!buffer.has_new_data(0));
    assert_eq!(buffer.consumer_count(), 2);
}

#[test]
fn test_fan_in_buffer_basic() {
    let mut buffer = FanInBuffer::<f32, 64, 2>::new(0.0);

    buffer.write(0, &[1.0; 64]);
    buffer.write(1, &[2.0; 64]);

    let blocks = buffer.try_read_blocks().unwrap();
    let mixed: f32 = blocks.iter().map(|b| b[0]).sum();
    assert_eq!(mixed, 3.0);
}

#[test]
fn fan_in_reads_only_fresh_producers() {
    let mut buffer = FanInBuffer::<u8, 1, 3>::new(0);
    assert!(buffer.try_read_blocks().is_none());
    buffer.write(2, &[5]);
    buffer.write(9, &[6]);
    assert_eq!(buffer.len(), 1);
    assert_eq!(buffer.try_read_blocks(), Some(vec![[5]]));
    assert!(!buffer.producer_has_data(2));
    buffer.write(0, &[1]);
    buffer.write(2, &[2]);
    buffer.write(2, &[3]);
    assert_eq!(buffer.write_seq(2), Some(3));
    assert_eq!(buffer.try_read_blocks(), Some(vec![[3]]));
    buffer.clear_producer(2);
    assert_eq!(buffer.write_seq(2), Some(0));
    buffer.reset();
    assert_eq!(buffer.read_seq(), 0);
}

#[test]
fn delay_reads_back_whole_sample_delays() {
    let mut delay = DelayLine::<f32, 1024>::new(0.0);

    for i in 0..1024 {
        delay.write(i as f32);
    }

    assert_eq!(delay.read_delayed(0), 1023.0, "delay 0 should be most recent (1023)");
    assert_eq!(delay.read_delayed(1), 1022.0, "delay 1 should be previous (1022)");
    assert_eq!(delay.read_delayed(100), 923.0, "delay 100 should be 923");
    assert_eq!(delay.read_delayed(200), 823.0, "delay 200 should be 823");

    let test_cases = [(100usize, 923.0f32), (101usize, 922.0f32)];
    for &(d, expected) in &test_cases {
        assert_eq!(delay.read_delayed(d), expected);
    }
}

#[test]
fn delay_line_write_returns_delayed_sample() {
    let mut delay = DelayLine::<i32, 4>::new(0);
    delay.set_delay_samples(2);
    assert_eq!(delay.write(1), 0);
    assert_eq!(delay.write(2), 0);
    assert_eq!(delay.write(3), 1);
    assert_eq!(delay.write(4), 2);
    delay.set_delay_samples(100);
    assert_eq!(delay.delay_samples(), 3);
    assert_eq!(delay.write(5), 2);
    // Five writes on four slots: the next sample goes to slot 1.
    assert_eq!(delay.write_position(), 1);
    assert_eq!(delay.read_delayed(0), 5);
    assert_eq!(delay.read_delayed(50), 2);
    delay.clear();
    assert_eq!(delay.read_delayed(0), 0);
    assert_eq!(delay.max_delay(), 4);
    assert_eq!(delay.write_position(), 0);
}

#[test]
fn ring_buffer_stats_follow_each_outcome() {
    let mut buffer = RingBuffer::<u32, 4>::new();
    assert_eq!(buffer.read(), Err(BufferError::Empty));
    assert_eq!(buffer.write_block(&[1, 2, 3, 4, 5]), 4);
    assert_eq!(buffer.write(6), Err(BufferError::Full));
    let mut out = [0u32; 2];
    assert_eq!(buffer.read_block(&mut out), 2);
    assert_eq!(buffer.read(), Ok(3));
    let stats = buffer.stats_counts();
    assert_eq!(stats.writes, 4);
    assert_eq!(stats.reads, 3);
    assert_eq!(stats.underflows, 1);
    assert_eq!(stats.overflows, 2);
    assert_eq!(stats.peak_fill, 4);
    buffer.clear();
    assert_eq!(buffer.stats_counts().writes, 0);
    assert_eq!(buffer.stats_counts().peak_fill, 0);
}

#[test]
fn ring_buffer_wrap_around_counts_failed_read() {
    let mut buffer = RingBuffer::<u32, 4>::new();
    for i in 0..3 {
        buffer.write(i).unwrap();
    }
    buffer.read().unwrap();
    buffer.read().unwrap();
    buffer.write(3).unwrap();
    buffer.write(4).unwrap();
    assert_eq!(buffer.read(), Ok(2));
    assert_eq!(buffer.read(), Ok(3));
    assert_eq!(buffer.read(), Ok(4));
    assert_eq!(buffer.read(), Err(BufferError::Empty));
    let stats = buffer.stats_counts();
    assert_eq!(stats.underflows, 1);
    assert_eq!(stats.reads, 5);
    assert_eq!(stats.writes, 5);
    assert_eq!(stats.peak_fill, 3);
}

#[test]
fn pipe_buffer_stats_count_blocks() {
    let mut buffer = PipeBuffer::<u8, 2>::new(0);
    assert!(buffer.try_read().is_none());
    buffer.write(&[1, 2]);
    buffer.write(&[3, 4]);
    assert_eq!(buffer.try_read(), Some([3, 4]));
    let stats = buffer.stats_counts();
    assert_eq!(stats.writes, 2);
    assert_eq!(stats.reads, 1);
    assert_eq!(stats.underflows, 1);
    assert_eq!(stats.peak_fill, 1);
    buffer.reset();
    assert_eq!(buffer.stats_counts().writes, 0);
}

#[test]
fn fan_buffers_stats_count_reads_and_misses() {
    let mut out = FanOutBuffer::<u8, 1, 2>::new(0);
    out.write(&[7]);
    assert_eq!(out.try_read(0), Some([7]));
    assert!(out.try_read(0).is_none());
    assert!(out.try_read(9).is_none());
    let stats = out.stats_counts();
    assert_eq!(stats.writes, 1);
    assert_eq!(stats.reads, 1);
    assert_eq!(stats.underflows, 1);

    let mut fan_in = FanInBuffer::<u8, 1, 3>::new(0);
    assert!(fan_in.try_read_blocks().is_none());
    fan_in.write(0, &[1]);
    fan_in.write(2, &[2]);
    fan_in.write(7, &[3]);
    assert_eq!(fan_in.try_read_blocks(), Some(vec![[1], [2]]));
    let stats = fan_in.stats_counts();
    assert_eq!(stats.writes, 2);
    assert_eq!(stats.reads, 1);
    assert_eq!(stats.underflows, 1);
    assert_eq!(stats.peak_fill, 2);
}

#[test]
fn delay_line_stats_count_each_write_as_read() {
    let mut delay = DelayLine::<i32, 4>::new(0);
    delay.write(1);
    delay.write(2);
    delay.set_delay_samples(1);
    let stats = delay.stats_counts();
    assert_eq!(stats.writes, 2);
    assert_eq!(stats.reads, 2);
    assert_eq!(stats.underflows, 0);
    delay.clear();
    assert_eq!(delay.stats_counts().writes, 0);
}
