//! Terminal spectrum/waterfall visualizer core.
//!
//! The library holds the verified logic of a real-time audio visualizer:
//! a circular buffer of recent samples shared between a capture callback
//! and an analysis loop, a fixed-depth history of spectra, the view state
//! driven by key presses, and a double-buffered screen renderer that
//! emits only the cells that changed since the last frame.
//!
//! Audio capture, the floating-point transform, and terminal output are
//! external collaborators; they live outside the library and exchange
//! plain values with it.

pub mod control;
pub mod history;
pub mod input;
pub mod render;
pub mod ring;
pub mod screen;
pub mod spectrum;
pub mod view;

pub use history::WaterfallHistory;
pub use render::Command;
pub use render::FrameRenderer;
pub use ring::SampleRing;
pub use screen::Color;
pub use screen::ScreenCell;
pub use spectrum::Spectrum;
pub use view::Action;
pub use view::Key;
pub use view::ViewState;
