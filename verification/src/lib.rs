//! Slot admission, GPU locking and request planning for a broker that shares
//! one `llama-server` between several local processes.
pub mod completion;
pub mod completion_laws;
pub mod config;
pub mod config_laws;
pub mod gpu;
pub mod gpu_lock;
pub mod gpu_lock_laws;
pub mod json;
pub mod llama_client;
pub mod operations;
pub mod scheduler;
pub mod scheduler_laws;
pub mod server;
pub mod text;
pub mod vram_cache;
pub mod wake;

pub use config::BrokerConfig;
pub use gpu_lock::{GpuLock, GpuLockError, LeaseId};
pub use scheduler::{Admission, Scheduler, SchedulerError, SlotHint, SlotSnapshot};
