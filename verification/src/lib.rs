//! Pacing and synchronization core of a CHIP-8 emulator.
//!
//! The crate holds the decisions that keep an emulated CPU in step with a
//! presentation loop and an input source: how long a tick may sleep, how the
//! request/feedback handshake between the two threads advances, how key
//! events change the keypad, and how the two 60 Hz decay counters count down.
//! Every function is a transition on plain values; the threads, locks and
//! condition variables that carry those values live with the caller.

use vstd::prelude::*;

pub mod emulator;
pub mod keyboard;
pub mod rendezvous;
pub mod screen;
pub mod timers;

verus! {

/// Mathematical content of [`ProgramOptions`].
pub struct Options {
    pub schip_compatibility: bool,
    pub clip_sprites: bool,
    pub clock_speed: u16,
    pub program: Seq<u8>,
}

/// The options that a configuration resolves to: an empty program image is
/// rejected, and a clock rate of zero stands for the default rate.
pub open spec fn resolve_options(
    program: Seq<u8>,
    clock_speed: u16,
    clip_sprites: bool,
    schip_compatibility: bool,
) -> Option<Options> {
    if program.len() == 0 {
        None
    } else {
        Some(
            Options {
                schip_compatibility,
                clip_sprites,
                clock_speed: if clock_speed == 0 {
                    emulator::DEFAULT_CLOCK_SPEED
                } else {
                    clock_speed
                },
                program,
            },
        )
    }
}

/// Startup configuration: the program image, the emulated clock rate in Hz,
/// and the two compatibility flags that are handed on to the CPU core.
#[derive(Debug)]
pub struct ProgramOptions {
    schip_compatibility: bool,
    clip_sprites: bool,
    clock_speed: u16,
    program: Vec<u8>,
}

impl View for ProgramOptions {
    type V = Options;

    closed spec fn view(&self) -> Options {
        Options {
            schip_compatibility: self.schip_compatibility,
            clip_sprites: self.clip_sprites,
            clock_speed: self.clock_speed,
            program: self.program@,
        }
    }
}

impl ProgramOptions {
    #[verifier::type_invariant]
    spec fn well_formed(&self) -> bool {
        self.clock_speed > 0 && self.program@.len() > 0
    }

    /// Builds the options, or `None` when the program image is empty. A clock
    /// rate of zero selects [`emulator::DEFAULT_CLOCK_SPEED`].
    pub fn new(
        program: Vec<u8>,
        clock_speed: u16,
        clip_sprites: bool,
        schip_compatibility: bool,
    ) -> (options: Option<Self>)
        ensures
            match resolve_options(program@, clock_speed, clip_sprites, schip_compatibility) {
                Some(resolved) => options.is_some() && options.unwrap()@ == resolved,
                None => options.is_none(),
            },
    {
        if program.len() == 0 {
            return None;
        }
        let clock_speed: u16 = if clock_speed == 0 {
            emulator::DEFAULT_CLOCK_SPEED
        } else {
            clock_speed
        };
        Some(ProgramOptions { schip_compatibility, clip_sprites, clock_speed, program })
    }

    /// Whether the CPU core uses the later instruction-set variant.
    pub fn schip_compatibility(&self) -> (flag: bool)
        ensures
            flag == self@.schip_compatibility,
    {
        self.schip_compatibility
    }

    /// Whether the CPU core clips sprites at the screen edge.
    pub fn clip_sprites(&self) -> (flag: bool)
        ensures
            flag == self@.clip_sprites,
    {
        self.clip_sprites
    }

    /// Emulated clock rate in Hz; never zero.
    pub fn clock_speed(&self) -> (hz: u16)
        ensures
            hz == self@.clock_speed,
            hz > 0,
    {
        proof {
            use_type_invariant(self);
        }
        self.clock_speed
    }

    /// The program image; never empty.
    pub fn program(&self) -> (image: &Vec<u8>)
        ensures
            image@ == self@.program,
            image@.len() > 0,
    {
        proof {
            use_type_invariant(self);
        }
        &self.program
    }
}

} // verus!
