//! Sorting camera raw files into folders named by their capture date.
//!
//! The library holds the decisions: which directory entries are raw files,
//! how a metadata reader's output becomes a calendar date, which folder and
//! file names a dated file gets, which command lines the external tools are
//! given, and in which order the two compressors are tried. The program
//! around it performs the file system work and runs the external tools.
pub mod date;
pub mod naming;
pub mod options;
pub mod organize;
pub mod text;
pub mod tools;
