//! An unpacker for DEX images that live in the memory of a running
//! application.
//!
//! The library works on a snapshot of the process: a [`memory::MemoryImage`]
//! that holds what could be read of its memory, and a
//! [`dex_scanner::MapIndex`] of the mappings that are worth searching. On
//! the snapshot,
//!
//! * [`dex_scanner::scan_memory`] finds the images, by their magic and by
//!   pointers to images whose magic has been wiped;
//! * [`dex_parser::parse_dex_at`] reads the tables of an image and the code
//!   of its methods;
//! * [`art_runtime::resolve_methods`] drives the managed runtime, through
//!   the adapter [`art_runtime::ManagedVm`], to resolve every method that
//!   carries code, which makes the runtime materialise method bodies that
//!   it decodes lazily;
//! * [`orchestrator`] holds the rules of a pass: who is scanned, what is
//!   done with a candidate, and how its dump is named.
//!
//! Because every read is a read of the snapshot, what the scanner and the
//! parser return is a function of their arguments, and their contracts say
//! exactly which. The runtime answers as it likes; the resolver's contract
//! holds whatever it answers.

pub mod art_runtime;
pub mod bytes;
pub mod dex_parser;
pub mod dex_scanner;
pub mod memory;
pub mod orchestrator;
pub mod text;
