//! Exporting the boxes of one image: what is written where, and how the
//! outcome is reported.
//!
//! An export runs in two steps around the one write that it performs.
//! [`plan_export`] decides what is to be written, or that nothing can be;
//! [`finish_export`] turns the outcome of the write into the report.

use vstd::prelude::*;
use vstd::string::*;
use crate::line::{format_line, line_text, AnnotationFields};
use crate::path::{annotation_path, image_path_to_annotation_path, is_supported_image};
use crate::text::{join, join_strings, texts};

verus! {

/// The report of one export.
#[derive(Debug)]
pub struct ExportResult {
    pub success: bool,
    pub message: String,
    pub file_path: Option<String>,
    pub rectangles_processed: usize,
    pub errors: Vec<String>,
}

/// What an [`ExportResult`] holds, as a mathematical value.
pub struct ExportReport {
    pub success: bool,
    pub message: Seq<char>,
    pub file_path: Option<Seq<char>>,
    pub rectangles_processed: nat,
    pub errors: Seq<Seq<char>>,
}

impl View for ExportResult {
    type V = ExportReport;

    open spec fn view(&self) -> ExportReport {
        ExportReport {
            success: self.success,
            message: self.message@,
            file_path: match self.file_path {
                Some(p) => Some(p@),
                None => None,
            },
            rectangles_processed: self.rectangles_processed as nat,
            errors: texts(self.errors@),
        }
    }
}

/// The report of an export that was refused because the image is in no
/// supported format: a failure with no file, no box processed, and the
/// message as its one error.
pub open spec fn unsupported_report() -> ExportReport {
    ExportReport {
        success: false,
        message: "Unsupported image format"@,
        file_path: None,
        rectangles_processed: 0,
        errors: seq!["Unsupported image format"@],
    }
}

/// The report of an export that wrote the annotations of `rectangles` boxes
/// to `path`.
pub open spec fn written_report(path: Seq<char>, rectangles: nat) -> ExportReport {
    ExportReport {
        success: true,
        message: "YOLO annotations exported successfully"@,
        file_path: Some(path),
        rectangles_processed: rectangles,
        errors: Seq::empty(),
    }
}

/// The report of an export whose write failed with `error`: a failure with no
/// file and no box processed, which carries the error's text.
pub open spec fn write_failure_report(error: Seq<char>) -> ExportReport {
    ExportReport {
        success: false,
        message: "Failed to write file: "@ + error,
        file_path: None,
        rectangles_processed: 0,
        errors: seq![error],
    }
}

/// The text of each box's annotation line.
pub open spec fn line_texts(rectangles: Seq<AnnotationFields>) -> Seq<Seq<char>> {
    rectangles.map_values(|f: AnnotationFields| line_text(f@))
}

/// The content of the annotation file for the given boxes: one line per box,
/// in order, a single newline between each two lines and none after the
/// last. No box gives the empty file.
pub open spec fn content_text(rectangles: Seq<AnnotationFields>) -> Seq<char> {
    join(line_texts(rectangles), seq!['\n'])
}

/// What an export has to do next.
#[derive(Debug)]
pub enum ExportStep {
    /// Nothing is to be written: the export is over, with this report.
    Rejected(ExportResult),
    /// `content` is to be written to `path`, replacing what the file held;
    /// `rectangles` is the number of boxes in it.
    Write { path: String, content: String, rectangles: usize },
}

/// Plans the export of an image's boxes.
///
/// For an image in a supported format the content of the annotation file is
/// laid out and handed back with the path to write it to. For any other image
/// the export is rejected, whatever the boxes are.
pub fn plan_export(image_path: &str, rectangles: &Vec<AnnotationFields>) -> (step: ExportStep)
    ensures
        match step {
            ExportStep::Rejected(result) => {
                &&& !is_supported_image(image_path@)
                &&& result@ == unsupported_report()
            },
            ExportStep::Write { path, content, rectangles: count } => {
                &&& is_supported_image(image_path@)
                &&& path@ == annotation_path(image_path@)
                &&& content@ == content_text(rectangles@)
                &&& count == rectangles.len()
            },
        },
{
    let path = match image_path_to_annotation_path(image_path) {
        Some(p) => p,
        None => {
            let mut errors: Vec<String> = Vec::new();
            errors.push(String::from_str("Unsupported image format"));
            let result = ExportResult {
                success: false,
                message: String::from_str("Unsupported image format"),
                file_path: None,
                rectangles_processed: 0,
                errors,
            };
            assert(result@.errors =~= unsupported_report().errors);
            return ExportStep::Rejected(result);
        },
    };
    let mut lines: Vec<String> = Vec::new();
    let mut i: usize = 0;
    while i < rectangles.len()
        invariant
            i <= rectangles.len(),
            texts(lines@) == line_texts(rectangles@.take(i as int)),
        decreases rectangles.len() - i,
    {
        let line = format_line(&rectangles[i]);
        let ghost before = texts(lines@);
        lines.push(line);
        assert(texts(lines@) =~= before.push(line@));
        assert(line_texts(rectangles@.take(i + 1)) =~= line_texts(rectangles@.take(i as int)).push(
            line_text(rectangles@[i as int]@),
        ));
        i = i + 1;
    }
    assert(rectangles@.take(i as int) =~= rectangles@);
    proof {
        reveal_strlit("\n");
        assert("\n"@ =~= seq!['\n']);
    }
    let content = join_strings(&lines, "\n");
    ExportStep::Write { path, content, rectangles: rectangles.len() }
}

/// Reports an export whose write has been attempted.
///
/// `outcome` is `Ok` where the file was written and otherwise holds the text
/// of the error that the write gave.
pub fn finish_export(path: String, rectangles: usize, outcome: Result<(), String>) -> (result:
    ExportResult)
    ensures
        result@ == match outcome {
            Ok(_) => written_report(path@, rectangles as nat),
            Err(error) => write_failure_report(error@),
        },
{
    match outcome {
        Ok(_) => {
            let result = ExportResult {
                success: true,
                message: String::from_str("YOLO annotations exported successfully"),
                file_path: Some(path),
                rectangles_processed: rectangles,
                errors: Vec::new(),
            };
            assert(result@.errors =~= Seq::<Seq<char>>::empty());
            result
        },
        Err(error) => {
            let mut message = String::from_str("Failed to write file: ");
            message.append(error.as_str());
            let mut errors: Vec<String> = Vec::new();
            errors.push(error);
            let result = ExportResult {
                success: false,
                message,
                file_path: None,
                rectangles_processed: 0,
                errors,
            };
            assert(result@.errors =~= seq![error@]);
            result
        },
    }
}

/// Without boxes the annotation file is empty.
pub proof fn no_boxes_give_empty_content(rectangles: Seq<AnnotationFields>)
    requires
        rectangles.len() == 0,
    ensures
        content_text(rectangles) == Seq::<char>::empty(),
{
}

} // verus!
