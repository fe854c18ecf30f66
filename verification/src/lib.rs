//! Global hotkey detection: a table of registered key+modifier combinations,
//! a tracker for the live modifier state, a matcher that turns physical key
//! transitions into `Pressed` / `Released` events by table index, and the
//! supervisor that decides when a faulted device set is rescanned.

pub mod discovery;
pub mod engine;
pub mod event;
pub mod hook;
pub mod hotkey;
pub mod input;
pub mod key;
pub mod linux;
pub mod listener;
pub mod matcher;
pub mod poller;
pub mod supervisor;
pub mod text;

pub use event::HotkeyEvent;
pub use hotkey::{parse_hotkey, Hotkey, Modifier, Modifiers};
pub use input::{Backend, KeyTransition, PhysicalKey, Transition};
pub use key::{Key, ParseError};
pub use engine::Engine;
pub use hook::HookListener;
pub use supervisor::{Action, Health, Worker};
pub use listener::HotkeyListenerBuilder;
