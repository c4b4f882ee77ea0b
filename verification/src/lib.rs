//! A hardware abstraction layer and minimal runtime model for a dual-CPU
//! handheld console platform.
//!
//! The crate centres on the pieces with real algorithmic content: a free-list
//! heap allocator for a fixed memory region, an atomic cell and mutex layer
//! for sharing state between main-line code and an interrupt handler, and the
//! interrupt-disable critical-section primitive they build on.  Hardware
//! registers are modelled as plain values; the thin volatile accesses that
//! bind the models to real register addresses live outside this library.

pub mod allocator;
pub mod cell;
pub mod console;
pub mod dispcnt;
pub mod display;
pub mod flalloc;
pub mod input;
pub mod interrupt;
pub mod mutex;
pub mod nocash;
pub mod obj;
pub mod runtime;
pub mod shared;
pub mod timers;
pub mod vram;

pub use allocator::ACSLAlloc;
pub use cell::NdsCell;
pub use cell::NdsCellSafe;
pub use cell::NdsCellSwapSafe;
pub use dispcnt::BackgroundControl;
pub use dispcnt::DisplayControlMain;
pub use dispcnt::DisplayControlSub;
pub use flalloc::FLAlloc;
pub use input::Buttons;
pub use interrupt::IRQType;
pub use mutex::MutexGuard;
pub use mutex::NdsMutex;
pub use obj::AffineSprite;
pub use obj::NormalSprite;
pub use obj::Sprite;
pub use shared::SharedData;
