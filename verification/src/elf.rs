//! What the outcome of opening an ELF binary means: the error codes of the
//! reader and the messages that name them.
use vstd::prelude::*;
use vstd::string::StringExecFns;

verus! {

/// The reader opened the binary.
pub const READELF_OK: i32 = 0;
/// The reader could not open the file.
pub const READELF_CANNOT_OPEN: i32 = 1;
/// The file is not an ELF binary.
pub const READELF_NOT_ELF: i32 = 2;
/// The binary is for another architecture.
pub const READELF_WRONG_ARCH: i32 = 3;
/// The binary is badly formatted.
pub const READELF_BAD_FORMAT: i32 = 4;
/// The binary does not fit in memory.
pub const READELF_MEMORY: i32 = 5;

/// An error from trying to open the ELF
#[derive(PartialEq, Eq, Structural, Clone, Copy, Debug)]
pub enum ReadElfErrorCode {
    /// The file couldn't be opened
    CannotOpen,
    /// The file isn't an ELF
    NotElf,
    /// The ELF is for a different architecture
    WrongArch,
    /// The ELF is badly formatted
    BadFormat,
    /// The ELF is too big to be loaded
    Memory,
}

/// The error that a code of the reader stands for; none for success and for
/// codes the reader does not give.
pub open spec fn error_of_code(code: i32) -> Option<ReadElfErrorCode> {
    if code == READELF_CANNOT_OPEN {
        Some(ReadElfErrorCode::CannotOpen)
    } else if code == READELF_NOT_ELF {
        Some(ReadElfErrorCode::NotElf)
    } else if code == READELF_WRONG_ARCH {
        Some(ReadElfErrorCode::WrongArch)
    } else if code == READELF_BAD_FORMAT {
        Some(ReadElfErrorCode::BadFormat)
    } else if code == READELF_MEMORY {
        Some(ReadElfErrorCode::Memory)
    } else {
        None
    }
}

impl ReadElfErrorCode {
    /// The message that describes the error.
    pub open spec fn spec_description(self) -> Seq<char> {
        match self {
            ReadElfErrorCode::CannotOpen => "Could not open the file"@,
            ReadElfErrorCode::NotElf => "Not an ELF-format binary"@,
            ReadElfErrorCode::WrongArch => "Wrong architecture for local system"@,
            ReadElfErrorCode::BadFormat => "ELF file, but badly formatted"@,
            ReadElfErrorCode::Memory => "Insufficient memory to load the file"@,
        }
    }

    /// The code of the reader that stands for the error.
    pub open spec fn spec_code(self) -> i32 {
        match self {
            ReadElfErrorCode::CannotOpen => READELF_CANNOT_OPEN,
            ReadElfErrorCode::NotElf => READELF_NOT_ELF,
            ReadElfErrorCode::WrongArch => READELF_WRONG_ARCH,
            ReadElfErrorCode::BadFormat => READELF_BAD_FORMAT,
            ReadElfErrorCode::Memory => READELF_MEMORY,
        }
    }

    /// The message that describes the error.
    pub fn description(&self) -> (r: &'static str)
        ensures
            r@ == self.spec_description(),
    {
        match self {
            ReadElfErrorCode::CannotOpen => "Could not open the file",
            ReadElfErrorCode::NotElf => "Not an ELF-format binary",
            ReadElfErrorCode::WrongArch => "Wrong architecture for local system",
            ReadElfErrorCode::BadFormat => "ELF file, but badly formatted",
            ReadElfErrorCode::Memory => "Insufficient memory to load the file",
        }
    }

    /// The code of the reader that stands for the error.
    pub fn code(&self) -> (r: i32)
        ensures
            r == self.spec_code(),
    {
        match self {
            ReadElfErrorCode::CannotOpen => READELF_CANNOT_OPEN,
            ReadElfErrorCode::NotElf => READELF_NOT_ELF,
            ReadElfErrorCode::WrongArch => READELF_WRONG_ARCH,
            ReadElfErrorCode::BadFormat => READELF_BAD_FORMAT,
            ReadElfErrorCode::Memory => READELF_MEMORY,
        }
    }

    /// The error that a code of the reader stands for, if any.
    pub fn from_code(code: i32) -> (r: Option<ReadElfErrorCode>)
        ensures
            r == error_of_code(code),
    {
        if code == READELF_CANNOT_OPEN {
            Some(ReadElfErrorCode::CannotOpen)
        } else if code == READELF_NOT_ELF {
            Some(ReadElfErrorCode::NotElf)
        } else if code == READELF_WRONG_ARCH {
            Some(ReadElfErrorCode::WrongArch)
        } else if code == READELF_BAD_FORMAT {
            Some(ReadElfErrorCode::BadFormat)
        } else if code == READELF_MEMORY {
            Some(ReadElfErrorCode::Memory)
        } else {
            None
        }
    }
}

/// An error from trying to open the ELF, including the filename
pub struct ReadElfError {
    filename: String,
    error: ReadElfErrorCode,
}

/// The message of an error: the file name in quotes, then the description.
pub open spec fn error_message(filename: Seq<char>, error: ReadElfErrorCode) -> Seq<char> {
    "'"@ + filename + "': "@ + error.spec_description()
}

impl ReadElfError {
    /// The name of the file that could not be opened.
    pub closed spec fn spec_filename(&self) -> Seq<char> {
        self.filename@
    }

    /// What went wrong.
    pub closed spec fn spec_error(&self) -> ReadElfErrorCode {
        self.error
    }

    /// An error in opening the file of this name.
    pub fn new(filename: &str, error: ReadElfErrorCode) -> (r: ReadElfError)
        ensures
            r.spec_filename() == filename@,
            r.spec_error() == error,
    {
        ReadElfError { filename: filename.to_owned(), error }
    }

    /// The name of the file that could not be opened.
    pub fn get_filename(&self) -> (r: &str)
        ensures
            r@ == self.spec_filename(),
    {
        self.filename.as_str()
    }

    /// What went wrong.
    pub fn get_error(&self) -> (r: ReadElfErrorCode)
        ensures
            r == self.spec_error(),
    {
        self.error
    }

    /// The message of the error, as its display shows it.
    pub fn to_string(&self) -> (r: String)
        ensures
            r@ == error_message(self.spec_filename(), self.spec_error()),
    {
        let mut out = String::new();
        out.append("'");
        out.append(self.filename.as_str());
        out.append("': ");
        out.append(self.error.description());
        out
    }
}

/// The outcome of opening the file `filename` when the reader answered
/// `code`: success for the code of success, else the error it stands for.
pub fn open_outcome(filename: &str, code: i32) -> (r: Result<(), ReadElfError>)
    requires
        READELF_OK <= code <= READELF_MEMORY,
    ensures
        code == READELF_OK <==> r is Ok,
        r matches Err(e) ==> e.spec_filename() == filename@ && Some(e.spec_error())
            == error_of_code(code),
{
    match ReadElfErrorCode::from_code(code) {
        Some(error) => Err(ReadElfError::new(filename, error)),
        None => Ok(()),
    }
}

/// Every error stands for exactly one code of the reader, and that code
/// stands for it; success stands for no error.
pub proof fn lemma_code_round_trip(e: ReadElfErrorCode, code: i32)
    ensures
        error_of_code(e.spec_code()) == Some(e),
        error_of_code(code) == Some(e) ==> code == e.spec_code(),
        error_of_code(READELF_OK) is None,
{
}

} // verus!
