//! From what a directory read reports of a node to the entry that stands
//! for it.

use vstd::prelude::*;
use crate::filesystem::path::MmmPath;
use crate::filesystem::MmmDirEntry;

verus! {

/// What the file system reports of a node's type. The three flags are
/// tested in this order; a node with none of them is of another kind.
#[derive(Clone, Copy, Debug, PartialEq, Eq, Structural)]
pub struct NodeType {
    pub is_file: bool,
    pub is_dir: bool,
    pub is_symlink: bool,
}

/// The permission bits that let someone execute a file.
pub const EXECUTE_BITS: u32 = 0o111;

/// Whether a file with the permission bits `mode` is executable by anyone;
/// a file whose permissions could not be read counts as not executable.
pub open spec fn is_executable(mode: Option<u32>) -> bool {
    mode matches Some(bits) && bits & EXECUTE_BITS != 0
}

/// The entry for a node called `name` at `path`: a file with its executable
/// bit, a directory, a link with the path it leads to if that could be read,
/// or a node of another kind.
pub fn classify(
    name: String,
    path: MmmPath,
    node_type: NodeType,
    mode: Option<u32>,
    linked_path: Option<MmmPath>,
) -> (entry: MmmDirEntry)
    ensures
        entry == if node_type.is_file {
            MmmDirEntry::File { name, path, executable: is_executable(mode) }
        } else if node_type.is_dir {
            MmmDirEntry::Directory { name, path }
        } else if node_type.is_symlink {
            MmmDirEntry::Link { name, path, linked_path }
        } else {
            MmmDirEntry::Other { name, path }
        },
{
    if node_type.is_file {
        let executable = match mode {
            Some(bits) => bits & EXECUTE_BITS != 0,
            None => false,
        };
        MmmDirEntry::File { name, path, executable }
    } else if node_type.is_dir {
        MmmDirEntry::Directory { name, path }
    } else if node_type.is_symlink {
        MmmDirEntry::Link { name, path, linked_path }
    } else {
        MmmDirEntry::Other { name, path }
    }
}

} // verus!
