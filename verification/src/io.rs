//! Audio device configuration and the decisions of the engine loop that
//! moves audio between a backend and a processor.
use vstd::prelude::*;

verus! {

/// Audio device configuration.
#[derive(Debug, Clone, Copy, PartialEq, Eq, Structural)]
pub struct AudioConfig {
    /// Sample rate in Hz.
    pub sample_rate: u32,
    /// Buffer size in frames.
    pub buffer_size: u32,
    /// Number of channels.
    pub channels: u32,
    /// Number of input channels.
    pub input_channels: u32,
    /// Number of output channels.
    pub output_channels: u32,
    /// Latency in milliseconds.
    pub latency_ms: u32,
}

impl Default for AudioConfig {
    fn default() -> (c: Self)
        ensures
            c == (AudioConfig {
                sample_rate: 48000,
                buffer_size: 128,
                channels: 2,
                input_channels: 2,
                output_channels: 2,
                latency_ms: 5,
            }),
    {
        AudioConfig {
            sample_rate: 48000,
            buffer_size: 128,
            channels: 2,
            input_channels: 2,
            output_channels: 2,
            latency_ms: 5,
        }
    }
}

impl AudioConfig {
    /// Number of samples in one interleaved buffer: frames times channels,
    /// or `None` if it does not fit in a word.
    pub fn interleaved_len(&self) -> (r: Option<usize>)
        ensures
            r == if self.buffer_size * self.channels <= usize::MAX {
                Some((self.buffer_size * self.channels) as usize)
            } else {
                None::<usize>
            },
    {
        (self.buffer_size as usize).checked_mul(self.channels as usize)
    }
}

/// The next step of the engine loop.
#[derive(Debug, Clone, Copy, PartialEq, Eq, Structural)]
pub enum EngineAction {
    /// Read the next input buffer from the backend.
    Read,
    /// Process the first `n` samples read and write them to the backend.
    Process(usize),
    /// Stop the backend and leave the loop.
    Stop,
}

/// Running state of the engine loop, which reads from a backend, processes
/// what it read and writes it back until it is stopped.
#[derive(Debug, Clone, Copy, PartialEq, Eq, Structural)]
pub struct EngineControl {
    running: bool,
}

impl EngineControl {
    /// Whether the loop is running.
    pub closed spec fn running(&self) -> bool {
        self.running
    }

    /// A stopped loop.
    pub fn new() -> (c: Self)
        ensures
            !c.running(),
    {
        EngineControl { running: false }
    }

    /// Mark the loop running.
    pub fn start(&mut self)
        ensures
            final(self).running(),
    {
        self.running = true;
    }

    /// Ask the loop to stop; it leaves at its next step.
    pub fn stop(&mut self)
        ensures
            !final(self).running(),
    {
        self.running = false;
    }

    /// Whether the loop is running.
    pub fn is_running(&self) -> (r: bool)
        ensures
            r == self.running(),
    {
        self.running
    }

    /// The step at the top of the loop: read while running, stop otherwise.
    pub fn next_step(&self) -> (a: EngineAction)
        ensures
            a == if self.running() {
                EngineAction::Read
            } else {
                EngineAction::Stop
            },
    {
        if self.running {
            EngineAction::Read
        } else {
            EngineAction::Stop
        }
    }

    /// The step after `read` samples were read into a buffer of `capacity`
    /// samples: process them when there are any, else go back to the top of
    /// the loop.
    pub fn after_read(&self, read: usize, capacity: usize) -> (a: EngineAction)
        requires
            read <= capacity,
        ensures
            a == if read > 0 {
                EngineAction::Process(read)
            } else if self.running() {
                EngineAction::Read
            } else {
                EngineAction::Stop
            },
    {
        if read > 0 {
            EngineAction::Process(read)
        } else {
            self.next_step()
        }
    }
}

} // verus!
