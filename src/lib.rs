//! Orchestration core of a performance-data collector: run parameters,
//! duration parsing, the collector and visualizer registries and the
//! drift-aware periodic scheduler.

pub mod collector;
pub mod duration;
pub mod keyed;
pub mod manifest;
pub mod params;
pub mod record;
pub mod scheduler;
pub mod visualizer;

pub use duration::{get_time_value, DurationFault, PDError, TimeType};
pub use scheduler::{Scheduler, TickAction};
pub use params::InitParams;
pub use collector::{Collector, DataType, PerformanceData};
pub use visualizer::{DataVisualizer, UnpackReport, VisualizationData, Visualizer};
pub use record::{record, Record};
pub use manifest::{find_entry, MANIFEST_NAME};
