//! The command lines of the external tools, and the order in which the two
//! compressors are tried.
use vstd::prelude::*;
use vstd::string::StringExecFns;
use crate::text::{decimal, decimal_text};

verus! {

/// One argument of an external tool's command line.
pub enum ToolArg {
    /// A literal argument.
    Text(String),
    /// The path of the file that the tool works on.
    File,
}

/// What a command line argument stands for.
pub enum ArgModel {
    Text(Seq<char>),
    File,
}

impl View for ToolArg {
    type V = ArgModel;

    open spec fn view(&self) -> ArgModel {
        match self {
            ToolArg::Text(s) => ArgModel::Text(s@),
            ToolArg::File => ArgModel::File,
        }
    }
}

/// A program to run and its arguments.
pub struct ToolCommand {
    pub program: String,
    pub args: Vec<ToolArg>,
}

/// What a command line stands for: the program and its arguments.
pub struct CommandModel {
    pub program: Seq<char>,
    pub args: Seq<ArgModel>,
}

impl View for ToolCommand {
    type V = CommandModel;

    open spec fn view(&self) -> CommandModel {
        CommandModel { program: self.program@, args: self.args@.map_values(|a: ToolArg| a@) }
    }
}

/// The tools that can compress a converted image in place, in the order in
/// which they are tried.
#[derive(Clone, Copy, Debug, PartialEq, Eq, Structural)]
pub enum Compressor {
    /// ImageMagick, asked for a quality level.
    Magick,
    /// jpegoptim, asked for a maximum quality level.
    Jpegoptim,
}

/// What to do after a compressor has run.
#[derive(Clone, Copy, Debug, PartialEq, Eq, Structural)]
pub enum CompressionStep {
    /// Run this compressor next.
    Try(Compressor),
    /// This compressor succeeded: the image is compressed.
    Succeeded(Compressor),
    /// Every compressor was tried and none succeeded.
    Failed,
}

pub open spec fn compressor_order() -> Seq<Compressor> {
    seq![Compressor::Magick, Compressor::Jpegoptim]
}

/// The step that follows a run of `tool` that succeeded or failed: on
/// failure the next compressor in order, until none is left.
pub open spec fn next_step(tool: Compressor, succeeded: bool) -> CompressionStep {
    if succeeded {
        CompressionStep::Succeeded(tool)
    } else {
        match tool {
            Compressor::Magick => CompressionStep::Try(Compressor::Jpegoptim),
            Compressor::Jpegoptim => CompressionStep::Failed,
        }
    }
}

/// The metadata reader's command line: the original capture time, value only.
pub open spec fn metadata_command() -> CommandModel {
    CommandModel {
        program: "exiftool"@,
        args: seq![ArgModel::Text("-DateTimeOriginal"@), ArgModel::Text("-s3"@), ArgModel::File],
    }
}

/// The raw decoder's command line: image bytes to standard output, with the
/// camera's white balance.
pub open spec fn decoder_command() -> CommandModel {
    CommandModel {
        program: "dcraw"@,
        args: seq![ArgModel::Text("-c"@), ArgModel::Text("-w"@), ArgModel::File],
    }
}

/// A compressor's command line for the quality level `quality`; ImageMagick
/// reads the file and writes it back in place.
pub open spec fn compress_command(tool: Compressor, quality: u8) -> CommandModel {
    match tool {
        Compressor::Magick => CommandModel {
            program: "magick"@,
            args: seq![
                ArgModel::File,
                ArgModel::Text("-quality"@),
                ArgModel::Text(decimal(quality as nat)),
                ArgModel::File,
            ],
        },
        Compressor::Jpegoptim => CommandModel {
            program: "jpegoptim"@,
            args: seq![
                ArgModel::Text("--max"@),
                ArgModel::Text(decimal(quality as nat)),
                ArgModel::File,
            ],
        },
    }
}

fn text_arg(s: &str) -> (r: ToolArg)
    ensures
        r@ == ArgModel::Text(s@),
{
    ToolArg::Text(String::from_str(s))
}

/// The compressor that is tried first.
pub fn first_compressor() -> (r: Compressor)
    ensures
        r == compressor_order()[0],
{
    Compressor::Magick
}

/// The step that follows a run of `tool`.
pub fn after_compression(tool: Compressor, succeeded: bool) -> (r: CompressionStep)
    ensures
        r == next_step(tool, succeeded),
{
    if succeeded {
        CompressionStep::Succeeded(tool)
    } else {
        match tool {
            Compressor::Magick => CompressionStep::Try(Compressor::Jpegoptim),
            Compressor::Jpegoptim => CompressionStep::Failed,
        }
    }
}

/// The command line that reads a file's original capture time.
pub fn metadata_reader_command() -> (r: ToolCommand)
    ensures
        r@ == metadata_command(),
{
    let mut args: Vec<ToolArg> = Vec::new();
    args.push(text_arg("-DateTimeOriginal"));
    args.push(text_arg("-s3"));
    args.push(ToolArg::File);
    let r = ToolCommand { program: String::from_str("exiftool"), args };
    assert(r@.args =~= metadata_command().args);
    r
}

/// The command line that decodes a raw file to image bytes on standard output.
pub fn raw_decoder_command() -> (r: ToolCommand)
    ensures
        r@ == decoder_command(),
{
    let mut args: Vec<ToolArg> = Vec::new();
    args.push(text_arg("-c"));
    args.push(text_arg("-w"));
    args.push(ToolArg::File);
    let r = ToolCommand { program: String::from_str("dcraw"), args };
    assert(r@.args =~= decoder_command().args);
    r
}

/// The command line that compresses an image in place with `tool`.
pub fn compressor_command(tool: Compressor, quality: u8) -> (r: ToolCommand)
    ensures
        r@ == compress_command(tool, quality),
{
    let mut args: Vec<ToolArg> = Vec::new();
    match tool {
        Compressor::Magick => {
            args.push(ToolArg::File);
            args.push(text_arg("-quality"));
            args.push(ToolArg::Text(decimal_text(quality)));
            args.push(ToolArg::File);
            let r = ToolCommand { program: String::from_str("magick"), args };
            assert(r@.args =~= compress_command(tool, quality).args);
            r
        },
        Compressor::Jpegoptim => {
            args.push(text_arg("--max"));
            args.push(ToolArg::Text(decimal_text(quality)));
            args.push(ToolArg::File);
            let r = ToolCommand { program: String::from_str("jpegoptim"), args };
            assert(r@.args =~= compress_command(tool, quality).args);
            r
        },
    }
}

} // verus!
