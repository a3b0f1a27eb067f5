//! Drawings, the memories they read and write, and the connections between
//! them.

use vstd::prelude::*;
use vstd::string::*;

verus! {

/// Everything that is on display: drawings, memories, groups of memories and
/// the connections between drawings.
pub struct Data {
    pub dwgs: Vec<Dwg>,
    pub mems: Vec<Mem>,
    pub mem_groups: Vec<MemGroup>,
    pub connections: Vec<Connection>,
}

/// A drawing, with the groups of memories that it reads and writes, each an
/// index into [`Data::mem_groups`].
pub struct Dwg {
    pub name: String,
    pub note: String,
    pub in_mem_groups: Vec<usize>,
    pub out_mem_groups: Vec<usize>,
}

/// A group of memories, each an index into [`Data::mems`].
pub struct MemGroup {
    pub mems: Vec<usize>,
}

/// A memory.
pub struct Mem {
    pub name: String,
    pub note: String,
    pub mem_type: MemType,
}

/// The kind of a memory.
#[derive(Debug, Clone, Copy, PartialEq, Eq, Structural)]
pub enum MemType {
    Ram,
    Calib,
    BackupRam,
}

/// A connection from one group of a drawing to a group of another.
pub struct Connection {
    pub from: GroupLocation,
    pub to: GroupLocation,
}

/// A group of memories of one drawing.
pub struct GroupLocation {
    pub dwg_index: usize,
    pub mem_group_index: usize,
}

/// A text that names no kind of memory.
#[derive(Debug)]
pub struct InvalidMemType {
    /// The text that was found.
    pub found: String,
}

/// The kind of memory that `text` names: `RAM` or `CALIB`, spelled exactly so.
pub open spec fn mem_type_named(text: Seq<char>) -> Option<MemType> {
    if text == "RAM"@ {
        Some(MemType::Ram)
    } else if text == "CALIB"@ {
        Some(MemType::Calib)
    } else {
        None
    }
}

impl MemType {
    /// Reads the kind of a memory from its name.
    pub fn from(x: &str) -> (parsed: Result<MemType, InvalidMemType>)
        ensures
            match mem_type_named(x@) {
                Some(mem_type) => parsed == Ok::<MemType, InvalidMemType>(mem_type),
                None => parsed.is_err() && parsed->Err_0.found@ == x@,
            },
    {
        let found = String::from_str(x);
        if found == String::from_str("RAM") {
            Ok(MemType::Ram)
        } else if found == String::from_str("CALIB") {
            Ok(MemType::Calib)
        } else {
            Err(InvalidMemType { found })
        }
    }
}

impl InvalidMemType {
    /// The words that report this error.
    pub fn message(&self) -> (text: String)
        ensures
            text@ == "Invalid memory type: "@ + self.found@,
    {
        String::from_str("Invalid memory type: ").concat(self.found.as_str())
    }
}

} // verus!
