use photo_organizer::date::{date_folder_name, date_from_metadata, CaptureDate};
use photo_organizer::organize::{plan_for_date, plan_for_file, FilePlan};
use photo_organizer::tools::{
    after_compression, compressor_command, first_compressor, metadata_reader_command,
    raw_decoder_command, CompressionStep, Compressor, ToolArg, ToolCommand,
};

fn texts(c: &ToolCommand) -> Vec<String> {
    c.args
        .iter()
        .map(|a| match a {
            ToolArg::Text(s) => s.clone(),
            ToolArg::File => "<file>".to_string(),
        })
        .collect()
}

#[test]
fn dated_raw_file_goes_to_its_date_folder() {
    let plan = plan_for_file("IMG_0001.ARW", true, "2023:07:04 12:34:56\n", false, 80);
    match plan {
        FilePlan::Relocate { date, folder, file_name, conversion } => {
            assert_eq!(date, CaptureDate { year: 2023, month: 7, day: 4 });
            assert_eq!(folder, "2023-07-04");
            assert_eq!(file_name, "IMG_0001.ARW");
            assert!(conversion.is_none());
        }
        FilePlan::Undetermined => panic!("expected a relocation"),
    }
}

#[test]
fn padded_metadata_output_is_trimmed() {
    let plan = plan_for_file("a.arw", true, "  \t2021:12:31 23:59:59  \n", false, 80);
    match plan {
        FilePlan::Relocate { folder, .. } => assert_eq!(folder, "2021-12-31"),
        FilePlan::Undetermined => panic!("expected a relocation"),
    }
}

#[test]
fn failed_reader_leaves_file_in_place() {
    let plan = plan_for_file("IMG_0002.ARW", false, "2023:07:04 12:34:56", false, 80);
    assert!(matches!(plan, FilePlan::Undetermined));
}

#[test]
fn empty_reader_output_leaves_file_in_place() {
    assert!(matches!(plan_for_file("x.ARW", true, "", true, 50), FilePlan::Undetermined));
    assert!(matches!(plan_for_file("x.ARW", true, " \n\t ", true, 50), FilePlan::Undetermined));
}

#[test]
fn non_date_output_leaves_file_in_place() {
    assert!(matches!(plan_for_file("x.ARW", true, "no date here", false, 80), FilePlan::Undetermined));
    assert!(matches!(plan_for_file("x.ARW", true, "2023-07-04 12:00:00", false, 80), FilePlan::Undetermined));
}

#[test]
fn conversion_at_fifty_names_image_beside_raw_file() {
    let plan = plan_for_file("IMG_0001.ARW", true, "2023:07:04 12:34:56", true, 50);
    match plan {
        FilePlan::Relocate { folder, file_name, conversion, .. } => {
            assert_eq!(folder, "2023-07-04");
            assert_eq!(file_name, "IMG_0001.ARW");
            let c = conversion.expect("a conversion");
            assert_eq!(c.output_name, "IMG_0001.jpg");
            assert_eq!(c.quality, 50);
        }
        FilePlan::Undetermined => panic!("expected a relocation"),
    }
    let first = compressor_command(first_compressor(), 50);
    assert_eq!(first.program, "magick");
    assert_eq!(texts(&first), vec!["<file>", "-quality", "50", "<file>"]);
}

#[test]
fn failed_primary_compressor_falls_back_with_same_quality() {
    assert_eq!(first_compressor(), Compressor::Magick);
    let step = after_compression(Compressor::Magick, false);
    assert_eq!(step, CompressionStep::Try(Compressor::Jpegoptim));
    let second = compressor_command(Compressor::Jpegoptim, 50);
    assert_eq!(second.program, "jpegoptim");
    assert_eq!(texts(&second), vec!["--max", "50", "<file>"]);
    assert_eq!(after_compression(Compressor::Jpegoptim, false), CompressionStep::Failed);
}

#[test]
fn successful_compressor_ends_the_chain() {
    assert_eq!(after_compression(Compressor::Magick, true), CompressionStep::Succeeded(Compressor::Magick));
    assert_eq!(
        after_compression(Compressor::Jpegoptim, true),
        CompressionStep::Succeeded(Compressor::Jpegoptim)
    );
}

#[test]
fn reader_and_decoder_command_lines() {
    let m = metadata_reader_command();
    assert_eq!(m.program, "exiftool");
    assert_eq!(texts(&m), vec!["-DateTimeOriginal", "-s3", "<file>"]);
    let d = raw_decoder_command();
    assert_eq!(d.program, "dcraw");
    assert_eq!(texts(&d), vec!["-c", "-w", "<file>"]);
}

#[test]
fn leap_days_are_checked() {
    assert_eq!(
        date_from_metadata(true, "2024:02:29 08:00:00"),
        Some(CaptureDate { year: 2024, month: 2, day: 29 })
    );
    assert_eq!(date_from_metadata(true, "2023:02:29 08:00:00"), None);
    assert_eq!(date_from_metadata(true, "2023:13:01 08:00:00"), None);
}

#[test]
fn short_output_is_parsed_whole() {
    assert_eq!(
        date_from_metadata(true, "2023:7:4"),
        Some(CaptureDate { year: 2023, month: 7, day: 4 })
    );
}

#[test]
fn folder_names_follow_the_year_rules() {
    assert_eq!(date_folder_name(CaptureDate { year: 2023, month: 7, day: 4 }), "2023-07-04");
    assert_eq!(date_folder_name(CaptureDate { year: 123, month: 1, day: 5 }), "0123-01-05");
    assert_eq!(date_folder_name(CaptureDate { year: -5, month: 12, day: 31 }), "-0005-12-31");
    assert_eq!(date_folder_name(CaptureDate { year: 12345, month: 3, day: 9 }), "+12345-03-09");
}

#[test]
fn known_date_plans_folder_and_image() {
    let date = CaptureDate { year: 1999, month: 12, day: 31 };
    match plan_for_date("DSC09876.arw", Some(date), true, 90) {
        FilePlan::Relocate { date: d, folder, file_name, conversion } => {
            assert_eq!(d, date);
            assert_eq!(folder, "1999-12-31");
            assert_eq!(file_name, "DSC09876.arw");
            let c = conversion.expect("a conversion");
            assert_eq!(c.output_name, "DSC09876.jpg");
            assert_eq!(c.quality, 90);
        }
        FilePlan::Undetermined => panic!("expected a relocation"),
    }
    assert!(matches!(plan_for_date("DSC09876.arw", None, true, 90), FilePlan::Undetermined));
}
