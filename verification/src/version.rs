//! The versions of WASI that modules are built for.

use vstd::prelude::*;

verus! {

/// One version of WASI: the toolchain that compiles for it, and the name of
/// the directory that receives what is built for it.
#[derive(Debug, Clone, PartialEq, Eq)]
pub struct WasiVersion {
    /// The toolchain to hand to the compiler, such as `nightly-2019-09-13`.
    pub toolchain: String,
    /// The name of the output directory, such as `snapshot1`.
    pub directory_name: String,
}

/// A `WasiVersion`, as sequences of characters.
pub struct WasiVersionView {
    pub toolchain: Seq<char>,
    pub directory_name: Seq<char>,
}

impl View for WasiVersion {
    type V = WasiVersionView;

    open spec fn view(&self) -> WasiVersionView {
        WasiVersionView { toolchain: self.toolchain@, directory_name: self.directory_name@ }
    }
}

impl DeepView for WasiVersion {
    type V = WasiVersionView;

    open spec fn deep_view(&self) -> WasiVersionView {
        self@
    }
}

impl WasiVersion {
    /// The version that `toolchain` compiles for, built into `directory_name`.
    pub fn new(toolchain: String, directory_name: String) -> (v: WasiVersion)
        ensures
            v@.toolchain == toolchain@,
            v@.directory_name == directory_name@,
    {
        WasiVersion { toolchain, directory_name }
    }

    /// The toolchain that compiles for this version.
    pub fn get_compiler_toolchain(&self) -> (s: &str)
        ensures
            s@ == self@.toolchain,
    {
        self.toolchain.as_str()
    }

    /// The name of the directory that receives what is built for this version.
    pub fn get_directory_name(&self) -> (s: &str)
        ensures
            s@ == self@.directory_name,
    {
        self.directory_name.as_str()
    }
}

} // verus!
