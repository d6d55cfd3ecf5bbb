//! ZIP compression methods.
use vstd::prelude::*;
use vstd::string::*;

verus! {

/// The compression method of a ZIP entry.
#[derive(Clone, Copy, Debug, PartialEq, Eq, Structural)]
pub enum Compression {
    Stored,
    Deflate,
    Deflate64,
    Bz,
    Lzma,
    Zstd,
    Xz,
}

impl Compression {
    /// The method number in ZIP headers.
    pub open spec fn code_spec(self) -> u16 {
        match self {
            Compression::Stored => 0,
            Compression::Deflate => 8,
            Compression::Deflate64 => 9,
            Compression::Bz => 12,
            Compression::Lzma => 14,
            Compression::Zstd => 93,
            Compression::Xz => 95,
        }
    }

    /// The method number in ZIP headers.
    #[verifier::when_used_as_spec(code_spec)]
    pub fn code(self) -> (code: u16)
        ensures
            code == self.code_spec(),
    {
        match self {
            Compression::Stored => 0,
            Compression::Deflate => 8,
            Compression::Deflate64 => 9,
            Compression::Bz => 12,
            Compression::Lzma => 14,
            Compression::Zstd => 93,
            Compression::Xz => 95,
        }
    }

    /// The name shown in messages.
    pub open spec fn name_spec(self) -> Seq<char> {
        match self {
            Compression::Stored => "Stored"@,
            Compression::Deflate => "Deflate"@,
            Compression::Deflate64 => "Deflate64"@,
            Compression::Bz => "Bz"@,
            Compression::Lzma => "Lzma"@,
            Compression::Zstd => "Zstd"@,
            Compression::Xz => "Xz"@,
        }
    }

    /// The name shown in messages.
    pub fn name(self) -> (name: &'static str)
        ensures
            name@ == self.name_spec(),
    {
        match self {
            Compression::Stored => "Stored",
            Compression::Deflate => "Deflate",
            Compression::Deflate64 => "Deflate64",
            Compression::Bz => "Bz",
            Compression::Lzma => "Lzma",
            Compression::Zstd => "Zstd",
            Compression::Xz => "Xz",
        }
    }

    /// Whether entries with this method can be extracted.
    pub open spec fn is_supported_spec(self) -> bool {
        self == Compression::Stored || self == Compression::Deflate
    }

    /// Whether entries with this method can be extracted.
    #[verifier::when_used_as_spec(is_supported_spec)]
    pub fn is_supported(self) -> (supported: bool)
        ensures
            supported == self.is_supported_spec(),
    {
        match self {
            Compression::Stored | Compression::Deflate => true,
            _ => false,
        }
    }
}

} // verus!
