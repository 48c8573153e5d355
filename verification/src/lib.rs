//! A typed, memory-safe front end for the kernel's key/value mount interface.
//!
//! Mount options are modelled as parameters — nul-terminated text or raw byte
//! buffers — collected into a set with mapping semantics, encoded into the
//! flat descriptor sequence the kernel expects. The raw foreign calls
//! themselves live outside this crate; the library prepares their arguments
//! and interprets their results.

mod error;
mod mount;
mod param;
mod params;

pub use mount::MountCall;
pub use mount::UnmountCall;
pub use mount::ascii_no_nul;
pub use mount::built_map;
pub use mount::builder_spec;
pub use mount::effective_flags;
pub use mount::key_fspath;
pub use mount::key_fstype;
pub use mount::key_target;
pub use mount::lemma_ascii_no_nul_bytes;
pub use mount::lemma_default_flags;
pub use mount::lemma_override_precedence;
pub use mount::mount_devfs;
pub use mount::mount_fdescfs;
pub use mount::mount_nullfs;
pub use mount::mount_procfs;
pub use mount::mount_result;
pub use mount::nmount_request;
pub use mount::opt_params_view;
pub use mount::opt_params_wf;
pub use mount::spec_flags;
pub use mount::target_view;
pub use mount::text_param;
pub use mount::unmount_request;

pub use error::LibMountError;
pub use params::AsIovec;
pub use params::MntParams;
pub use params::keys_unique;
pub use params::lemma_map_of_contains;
pub use params::lemma_map_of_index;
pub use params::map_of;
pub use param::MntParam;
pub use param::MntParamV;
pub use param::is_first_nul;
pub use param::lemma_first_nul_unique;
pub use param::lemma_nul_byte_iff_nul_char;
pub use param::param_eq;
