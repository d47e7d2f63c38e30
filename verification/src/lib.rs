//! Generation of WASI regression fixtures.
//!
//! A test program is compiled and run natively; what it prints and how it
//! ends is what its module is expected to do under each version of WASI.
//! This library holds the rules of that work, and leaves the running of
//! tools and the writing of files to its caller:
//!
//! - `directives`: the options that a program asks for in its header comment;
//! - `native`: the record of the native run;
//! - `wast` and `escape`: the text of the assertion file;
//! - `pipeline`: the order of the steps, and what each of them runs or writes;
//! - `options`, `version`, `text`: the data that the others share.

pub mod directives;
pub mod escape;
pub mod native;
pub mod options;
pub mod pipeline;
pub mod text;
pub mod version;
pub mod wast;

pub use crate::native::NativeOutput;
pub use crate::options::WasiOptions;
pub use crate::wast::WasiTest;
