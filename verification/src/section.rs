//! Sysctl sections: the known kernel parameter sections, plus an open
//! variant that carries any other section name unchanged.

use vstd::prelude::*;

use crate::text::str_eq;

verus! {

/// A sysctl section to filter on.
#[derive(Debug, PartialEq, Eq)]
pub enum Section {
    Abi,
    Fs,
    Kernel,
    Net,
    Sunrpc,
    User,
    Vm,
    /// A section name the crate does not enumerate, kept as supplied.
    Unknown(String),
}

/// Mathematical image of a section.
pub enum SectionV {
    Abi,
    Fs,
    Kernel,
    Net,
    Sunrpc,
    User,
    Vm,
    Unknown(Seq<char>),
}

impl View for Section {
    type V = SectionV;

    open spec fn view(&self) -> SectionV {
        match self {
            Section::Abi => SectionV::Abi,
            Section::Fs => SectionV::Fs,
            Section::Kernel => SectionV::Kernel,
            Section::Net => SectionV::Net,
            Section::Sunrpc => SectionV::Sunrpc,
            Section::User => SectionV::User,
            Section::Vm => SectionV::Vm,
            Section::Unknown(s) => SectionV::Unknown(s@),
        }
    }
}

impl DeepView for Section {
    type V = SectionV;

    open spec fn deep_view(&self) -> SectionV {
        self.view()
    }
}

/// The open mapping from a raw string to a section: the known names map
/// to their section, and any other string is carried as-is.
pub open spec fn section_of(s: Seq<char>) -> SectionV {
    if s == "abi"@ {
        SectionV::Abi
    } else if s == "fs"@ {
        SectionV::Fs
    } else if s == "kernel"@ {
        SectionV::Kernel
    } else if s == "net"@ {
        SectionV::Net
    } else if s == "sunrpc"@ {
        SectionV::Sunrpc
    } else if s == "user"@ {
        SectionV::User
    } else if s == "vm"@ {
        SectionV::Vm
    } else {
        SectionV::Unknown(s)
    }
}

impl Section {
    /// Converts a raw string into a section; unrecognized names are
    /// accepted and carried unchanged.
    pub fn from_name(s: String) -> (r: Section)
        ensures
            r@ == section_of(s@),
    {
        if str_eq(s.as_str(), "abi") {
            Section::Abi
        } else if str_eq(s.as_str(), "fs") {
            Section::Fs
        } else if str_eq(s.as_str(), "kernel") {
            Section::Kernel
        } else if str_eq(s.as_str(), "net") {
            Section::Net
        } else if str_eq(s.as_str(), "sunrpc") {
            Section::Sunrpc
        } else if str_eq(s.as_str(), "user") {
            Section::User
        } else if str_eq(s.as_str(), "vm") {
            Section::Vm
        } else {
            Section::Unknown(s)
        }
    }
}

} // verus!
