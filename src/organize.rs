//! What becomes of one directory entry: left alone, or moved into the folder
//! of its capture date and, on request, converted to a compressed image.
use vstd::prelude::*;
use vstd::string::StringExecFns;
use crate::date::{
    date_folder_name,
    date_from_metadata,
    date_text,
    metadata_date,
    parsed_ymd,
    CaptureDate,
    DATE_WIDTH,
};
use crate::naming::{extension, image_file_name, image_name, is_raw_name, raw_extension, stem};
use crate::text::{decimal, prefix, trimmed};
use crate::tools::{
    compress_command,
    compressor_order,
    next_step,
    ArgModel,
    CompressionStep,
    Compressor,
};

verus! {

/// A converted image to write beside a moved raw file.
pub struct Conversion {
    /// The name of the image, in the same folder as the moved file.
    pub output_name: String,
    /// The quality level that the compressors are asked for.
    pub quality: u8,
}

/// What to do with a raw file, once its metadata has been read.
pub enum FilePlan {
    /// No capture date could be read: the file stays where it is.
    Undetermined,
    /// Move the file, under its own name, into the folder `folder` of the
    /// destination directory, creating that folder where it is missing.
    Relocate {
        date: CaptureDate,
        folder: String,
        file_name: String,
        conversion: Option<Conversion>,
    },
}

/// What a plan stands for.
pub enum PlanModel {
    Undetermined,
    Relocate {
        folder: Seq<char>,
        file_name: Seq<char>,
        conversion: Option<(Seq<char>, u8)>,
    },
}

impl View for FilePlan {
    type V = PlanModel;

    open spec fn view(&self) -> PlanModel {
        match self {
            FilePlan::Undetermined => PlanModel::Undetermined,
            FilePlan::Relocate { folder, file_name, conversion, .. } => PlanModel::Relocate {
                folder: folder@,
                file_name: file_name@,
                conversion: match conversion {
                    Some(c) => Some((c.output_name@, c.quality)),
                    None => None,
                },
            },
        }
    }
}

/// The plan for the file `name` once its capture date, year, month and day,
/// is known or found missing: a dated file goes into the folder named by its
/// date, keeping its name; with conversion asked for, an image named after it
/// is written there.
pub open spec fn plan_of_date(
    name: Seq<char>,
    date: Option<(int, int, int)>,
    convert: bool,
    quality: u8,
) -> PlanModel {
    match date {
        None => PlanModel::Undetermined,
        Some(ymd) => PlanModel::Relocate {
            folder: date_text(ymd),
            file_name: name,
            conversion: if convert {
                Some((image_name(name), quality))
            } else {
                None
            },
        },
    }
}

/// The plan for the file `name`, given the metadata reader's output.
pub open spec fn plan_model(
    name: Seq<char>,
    succeeded: bool,
    output: Seq<char>,
    convert: bool,
    quality: u8,
) -> PlanModel {
    plan_of_date(name, metadata_date(succeeded, output), convert, quality)
}

/// The plan for the raw file `name` once its capture date is known or found
/// missing.
pub fn plan_for_date(name: &str, date: Option<CaptureDate>, convert: bool, quality: u8) -> (r:
    FilePlan)
    requires
        date matches Some(d) ==> d.wf(),
    ensures
        r@ == plan_of_date(
            name@,
            match date {
                Some(d) => Some(d.ymd()),
                None => None,
            },
            convert,
            quality,
        ),
        r matches FilePlan::Relocate { date: d, .. } ==> date == Some(d),
{
    match date {
        None => FilePlan::Undetermined,
        Some(date) => {
            let folder = date_folder_name(date);
            let conversion = if convert {
                Some(Conversion { output_name: image_file_name(name), quality })
            } else {
                None
            };
            FilePlan::Relocate { date, folder, file_name: String::from_str(name), conversion }
        },
    }
}

/// The plan for the raw file `name`, given whether the metadata reader
/// succeeded and what it wrote.
pub fn plan_for_file(
    name: &str,
    succeeded: bool,
    output: &str,
    convert: bool,
    quality: u8,
) -> (r: FilePlan)
    ensures
        r@ == plan_model(name@, succeeded, output@, convert, quality),
        r matches FilePlan::Relocate { date, .. } ==> date.wf() && metadata_date(
            succeeded,
            output@,
        ) == Some(date.ymd()),
{
    let date = date_from_metadata(succeeded, output);
    plan_for_date(name, date, convert, quality)
}

/// A file whose metadata gives a capture date is moved, under its own name,
/// into the folder named by that date.
pub proof fn law_dated_file_is_relocated(
    name: Seq<char>,
    succeeded: bool,
    output: Seq<char>,
    convert: bool,
    quality: u8,
)
    requires
        metadata_date(succeeded, output) is Some,
    ensures
        plan_model(name, succeeded, output, convert, quality) matches PlanModel::Relocate {
            folder,
            file_name,
            ..
        } && folder == date_text(metadata_date(succeeded, output)->0) && file_name == name,
{
}

/// A file stays where it is when the metadata reader fails, writes nothing
/// but white space, or writes text whose leading part is no date.
pub proof fn law_undated_file_stays(
    name: Seq<char>,
    succeeded: bool,
    output: Seq<char>,
    convert: bool,
    quality: u8,
)
    requires
        !succeeded || trimmed(output).len() == 0 || parsed_ymd(
            prefix(trimmed(output), DATE_WIDTH as nat),
        ) is None,
    ensures
        plan_model(name, succeeded, output, convert, quality) == PlanModel::Undetermined,
{
}

/// With conversion asked for at quality `quality`, a dated raw file gets an
/// image beside it in the same folder, named by its stem and the image
/// extension, and the first compressor is asked for that quality.
pub proof fn law_conversion_beside_moved_file(
    name: Seq<char>,
    succeeded: bool,
    output: Seq<char>,
    quality: u8,
)
    requires
        metadata_date(succeeded, output) is Some,
        is_raw_name(name),
    ensures
        plan_model(name, succeeded, output, true, quality) matches PlanModel::Relocate {
            conversion,
            ..
        } && conversion == Some((image_name(name), quality)),
        image_name(name) == name.take(name.len() - 4) + seq!['.', 'j', 'p', 'g'],
        compress_command(compressor_order()[0], quality).args.contains(
            ArgModel::Text(decimal(quality as nat)),
        ),
{
    let k = crate::naming::last_dot(name);
    crate::naming::lemma_last_dot_bounds(name);
    let e = extension(name)->0;
    assert(e == name.subrange(k + 1, name.len() as int));
    assert(raw_extension().len() == 3);
    assert(stem(name) == name.take(k));
    assert(name.len() - k - 1 == 3);
    let args = compress_command(compressor_order()[0], quality).args;
    assert(args[2] == ArgModel::Text(decimal(quality as nat)));
}

/// When the first compressor fails, the second is tried, and both are asked
/// for the same quality level.
pub proof fn law_fallback_keeps_quality(quality: u8)
    ensures
        next_step(compressor_order()[0], false) == CompressionStep::Try(compressor_order()[1]),
        compress_command(compressor_order()[0], quality).args[2] == ArgModel::Text(
            decimal(quality as nat),
        ),
        compress_command(compressor_order()[1], quality).args[1] == ArgModel::Text(
            decimal(quality as nat),
        ),
        next_step(compressor_order()[1], false) == CompressionStep::Failed,
{
}

} // verus!
