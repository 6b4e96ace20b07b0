//! A retained-mode terminal rendering core: the append-only `Static` output
//! component, the updater through which components declare layout and
//! children, the state cells, tasks and print channel of the hook store, the
//! splitter between the static log and the repainted dynamic region, and the
//! decisions of the render loop.

pub mod element;
pub mod layout;
pub mod scheduler;
pub mod splitter;
pub mod state;
pub mod static_component;
pub mod tasks;
pub mod updater;

pub use element::Element;
pub use layout::{FlexDirection, LayoutStyle};
pub use scheduler::{LoopAction, LoopEvent, LoopState, Phase};
pub use splitter::{Splitter, TermCommand};
pub use state::State;
pub use static_component::{Static, StaticProps};
pub use tasks::TaskPool;
pub use updater::{ComponentUpdater, Poll};
