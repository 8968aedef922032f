use vstd::prelude::*;

verus! {

/// Describes the file type as represented on disk.
///
/// Git uses a variation on the Unix file permissions flags to denote a file's
/// intended type on disk. The following values are recognized:
///
/// * `0o100644` - normal file
/// * `0o100755` - executable file
/// * `0o120000` - symbolic link
/// * `0o040000` - tree (subdirectory)
/// * `0o160000` - submodule (aka gitlink)
#[derive(Copy, Clone, Debug, Eq, PartialEq, Structural)]
pub enum FileMode {
    Normal,
    Executable,
    SymbolicLink,
    Tree,
    Submodule,
}

/// The canonical octal spelling `100644`.
pub open spec fn mode_bytes_normal() -> Seq<u8> {
    seq![('1' as u8), ('0' as u8), ('0' as u8), ('6' as u8), ('4' as u8), ('4' as u8)]
}

/// The canonical octal spelling `100755`.
pub open spec fn mode_bytes_executable() -> Seq<u8> {
    seq![('1' as u8), ('0' as u8), ('0' as u8), ('7' as u8), ('5' as u8), ('5' as u8)]
}

/// The canonical octal spelling `120000`.
pub open spec fn mode_bytes_symlink() -> Seq<u8> {
    seq![('1' as u8), ('2' as u8), ('0' as u8), ('0' as u8), ('0' as u8), ('0' as u8)]
}

/// The canonical octal spelling `40000`.
pub open spec fn mode_bytes_tree() -> Seq<u8> {
    seq![('4' as u8), ('0' as u8), ('0' as u8), ('0' as u8), ('0' as u8)]
}

/// The zero-padded octal spelling `040000`, also accepted for a tree.
pub open spec fn mode_bytes_tree_padded() -> Seq<u8> {
    seq![('0' as u8), ('4' as u8), ('0' as u8), ('0' as u8), ('0' as u8), ('0' as u8)]
}

/// The canonical octal spelling `160000`.
pub open spec fn mode_bytes_submodule() -> Seq<u8> {
    seq![('1' as u8), ('6' as u8), ('0' as u8), ('0' as u8), ('0' as u8), ('0' as u8)]
}

impl FileMode {
    /// The `FileMode`, if any, that a byte string of octal digits denotes.
    pub open spec fn spec_from_octal_slice(value: Seq<u8>) -> Option<FileMode> {
        if value == mode_bytes_normal() {
            Some(FileMode::Normal)
        } else if value == mode_bytes_executable() {
            Some(FileMode::Executable)
        } else if value == mode_bytes_symlink() {
            Some(FileMode::SymbolicLink)
        } else if value == mode_bytes_tree() {
            Some(FileMode::Tree)
        } else if value == mode_bytes_tree_padded() {
            Some(FileMode::Tree)
        } else if value == mode_bytes_submodule() {
            Some(FileMode::Submodule)
        } else {
            None
        }
    }

    /// Convert a byte slice containing octal digits to `FileMode` enum.
    ///
    /// Returns `None` if the value is not one of the recognized constants
    /// or does not parse as octal.
    pub fn from_octal_slice(value: &[u8]) -> (r: Option<FileMode>)
        ensures
            r == FileMode::spec_from_octal_slice(value@),
    {
        let n = value.len();
        if n == 6 && value[0] == ('1' as u8) && value[1] == ('0' as u8) && value[2] == ('0' as u8) && value[3] == ('6' as u8)
            && value[4] == ('4' as u8) && value[5] == ('4' as u8) {
            proof {
                assert(value@ =~= mode_bytes_normal());
            }
            Some(FileMode::Normal)
        } else if n == 6 && value[0] == ('1' as u8) && value[1] == ('0' as u8) && value[2] == ('0' as u8) && value[3]
            == ('7' as u8) && value[4] == ('5' as u8) && value[5] == ('5' as u8) {
            proof {
                assert(value@ =~= mode_bytes_executable());
            }
            Some(FileMode::Executable)
        } else if n == 6 && value[0] == ('1' as u8) && value[1] == ('2' as u8) && value[2] == ('0' as u8) && value[3]
            == ('0' as u8) && value[4] == ('0' as u8) && value[5] == ('0' as u8) {
            proof {
                assert(value@ =~= mode_bytes_symlink());
            }
            Some(FileMode::SymbolicLink)
        } else if n == 5 && value[0] == ('4' as u8) && value[1] == ('0' as u8) && value[2] == ('0' as u8) && value[3]
            == ('0' as u8) && value[4] == ('0' as u8) {
            proof {
                assert(value@ =~= mode_bytes_tree());
            }
            Some(FileMode::Tree)
        } else if n == 6 && value[0] == ('0' as u8) && value[1] == ('4' as u8) && value[2] == ('0' as u8) && value[3]
            == ('0' as u8) && value[4] == ('0' as u8) && value[5] == ('0' as u8) {
            proof {
                assert(value@ =~= mode_bytes_tree_padded());
            }
            Some(FileMode::Tree)
        } else if n == 6 && value[0] == ('1' as u8) && value[1] == ('6' as u8) && value[2] == ('0' as u8) && value[3]
            == ('0' as u8) && value[4] == ('0' as u8) && value[5] == ('0' as u8) {
            proof {
                assert(value@ =~= mode_bytes_submodule());
            }
            Some(FileMode::Submodule)
        } else {
            None
        }
    }

    /// Convert from git file-mode integer to `FileMode` enum.
    ///
    /// Returns `None` if the value is not one of the recognized constants.
    pub fn from_value(value: u32) -> (r: Option<FileMode>)
        ensures
            r matches Some(m) ==> m.to_value_spec() == value,
            r is None ==> forall|m: FileMode| #[trigger] m.to_value_spec() != value,
    {
        if value == 0o100644 {
            Some(FileMode::Normal)
        } else if value == 0o100755 {
            Some(FileMode::Executable)
        } else if value == 0o120000 {
            Some(FileMode::SymbolicLink)
        } else if value == 0o040000 {
            Some(FileMode::Tree)
        } else if value == 0o160000 {
            Some(FileMode::Submodule)
        } else {
            None
        }
    }

    /// The git file-mode integer that this `FileMode` denotes.
    pub open spec fn to_value_spec(self) -> u32 {
        match self {
            FileMode::Normal => 0o100644,
            FileMode::Executable => 0o100755,
            FileMode::SymbolicLink => 0o120000,
            FileMode::Tree => 0o040000,
            FileMode::Submodule => 0o160000,
        }
    }

    /// Convert from `FileMode` enum to git file-mode integer.
    pub fn to_value(self) -> (r: u32)
        ensures
            r == self.to_value_spec(),
    {
        match self {
            FileMode::Normal => 0o100644,
            FileMode::Executable => 0o100755,
            FileMode::SymbolicLink => 0o120000,
            FileMode::Tree => 0o040000,
            FileMode::Submodule => 0o160000,
        }
    }
}

} // verus!
