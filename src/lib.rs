//! Kernel log records: the entry model, the two textual dialects in which the
//! kernel hands them out, and the decisions that turn a log backend into a
//! one-shot snapshot or a follow feed.
pub mod entry;
pub mod klog;
pub mod klogctl;
pub mod kmsg;
pub mod kmsgfile;
pub mod scan;
pub mod select;
pub mod text;
