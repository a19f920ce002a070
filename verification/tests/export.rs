use yolo_annotations::batch::summarize_exports;
use yolo_annotations::export::{finish_export, plan_export, ExportResult, ExportStep};
use yolo_annotations::line::AnnotationFields;

fn normalized(x: f64, y: f64, width: f64, height: f64, class_id: f64, w: u32, h: u32) -> AnnotationFields {
    let x_center = (x + width / 2.0) / w as f64;
    let y_center = (y + height / 2.0) / h as f64;
    let w_norm = width / w as f64;
    let h_norm = height / h as f64;
    AnnotationFields {
        class_id: format!("{:.0}", class_id),
        x_center: format!("{:.6}", x_center),
        y_center: format!("{:.6}", y_center),
        width: format!("{:.6}", w_norm),
        height: format!("{:.6}", h_norm),
    }
}

fn export(image_path: &str, rectangles: &Vec<AnnotationFields>) -> ExportResult {
    match plan_export(image_path, rectangles) {
        ExportStep::Rejected(result) => result,
        ExportStep::Write { path, content: _, rectangles } => finish_export(path, rectangles, Ok(())),
    }
}

#[test]
fn example_box_gives_example_line() {
    let rectangles = vec![normalized(10.0, 20.0, 100.0, 50.0, 0.0, 640, 480)];
    match plan_export("photo.jpg", &rectangles) {
        ExportStep::Write { path, content, rectangles } => {
            assert_eq!(path, "photo.txt");
            assert_eq!(content, "0 0.093750 0.093750 0.156250 0.104167");
            assert_eq!(rectangles, 1);
        }
        ExportStep::Rejected(_) => panic!("a jpg image is supported"),
    }
}

#[test]
fn lines_are_joined_by_newlines_without_a_trailing_one() {
    let rectangles = vec![
        normalized(10.0, 20.0, 100.0, 50.0, 0.0, 640, 480),
        normalized(0.0, 0.0, 640.0, 480.0, 2.0, 640, 480),
        normalized(320.0, 240.0, 64.0, 48.0, 1.0, 640, 480),
    ];
    match plan_export("/data/set/image.png", &rectangles) {
        ExportStep::Write { path, content, rectangles } => {
            assert_eq!(path, "/data/set/image.txt");
            assert_eq!(
                content,
                "0 0.093750 0.093750 0.156250 0.104167\n\
                 2 0.500000 0.500000 1.000000 1.000000\n\
                 1 0.550000 0.550000 0.100000 0.100000"
            );
            assert_eq!(rectangles, 3);
        }
        ExportStep::Rejected(_) => panic!("a png image is supported"),
    }
}

#[test]
fn empty_list_exports_to_empty_file() {
    let rectangles: Vec<AnnotationFields> = Vec::new();
    match plan_export("photo.jpeg", &rectangles) {
        ExportStep::Write { path, content, rectangles } => {
            assert_eq!(path, "photo.txt");
            assert_eq!(content, "");
            assert_eq!(content.len(), 0);
            let result = finish_export(path, rectangles, Ok(()));
            assert!(result.success);
            assert_eq!(result.rectangles_processed, 0);
            assert_eq!(result.file_path, Some("photo.txt".to_string()));
            assert!(result.errors.is_empty());
        }
        ExportStep::Rejected(_) => panic!("a jpeg image is supported"),
    }
}

#[test]
fn unsupported_format_is_rejected_before_anything_is_written() {
    let rectangles = vec![normalized(10.0, 20.0, 100.0, 50.0, 0.0, 640, 480)];
    match plan_export("image.bmp", &rectangles) {
        ExportStep::Rejected(result) => {
            assert!(!result.success);
            assert_eq!(result.message, "Unsupported image format");
            assert_eq!(result.file_path, None);
            assert_eq!(result.rectangles_processed, 0);
            assert_eq!(result.errors, vec!["Unsupported image format".to_string()]);
        }
        ExportStep::Write { .. } => panic!("a bmp image is not supported"),
    }
}

#[test]
fn successful_write_is_reported_with_path_and_count() {
    let result = finish_export("a/b.txt".to_string(), 4, Ok(()));
    assert!(result.success);
    assert_eq!(result.message, "YOLO annotations exported successfully");
    assert_eq!(result.file_path, Some("a/b.txt".to_string()));
    assert_eq!(result.rectangles_processed, 4);
    assert!(result.errors.is_empty());
}

#[test]
fn failed_write_is_reported_with_the_error() {
    let result = finish_export("a/b.txt".to_string(), 4, Err("Permission denied (os error 13)".to_string()));
    assert!(!result.success);
    assert_eq!(result.message, "Failed to write file: Permission denied (os error 13)");
    assert_eq!(result.file_path, None);
    assert_eq!(result.rectangles_processed, 0);
    assert_eq!(result.errors, vec!["Permission denied (os error 13)".to_string()]);
}

#[test]
fn batch_of_three_with_one_unsupported() {
    let rectangles = vec![normalized(10.0, 20.0, 100.0, 50.0, 0.0, 640, 480)];
    let results = vec![
        export("one.jpg", &rectangles),
        export("two.gif", &rectangles),
        export("three.png", &rectangles),
    ];
    let batch = summarize_exports(&results);
    assert_eq!(batch.total_images, 3);
    assert_eq!(batch.successful_exports, 2);
    assert_eq!(batch.failed_exports, 1);
    assert!(batch.summary.contains("(1 failed)"));
    assert_eq!(batch.summary, "Exported 2 YOLO annotation files (1 failed)");
    assert!(batch.results.is_empty());
}

#[test]
fn batch_where_all_succeed() {
    let rectangles: Vec<AnnotationFields> = Vec::new();
    let mut results = Vec::new();
    for i in 0..12 {
        results.push(export(&format!("img{}.png", i), &rectangles));
    }
    let batch = summarize_exports(&results);
    assert_eq!(batch.total_images, 12);
    assert_eq!(batch.successful_exports, 12);
    assert_eq!(batch.failed_exports, 0);
    assert_eq!(batch.summary, "Successfully exported 12 YOLO annotation files");
}

#[test]
fn batch_where_all_fail_lists_the_messages() {
    let rectangles: Vec<AnnotationFields> = Vec::new();
    let results = vec![
        export("one.gif", &rectangles),
        finish_export("two.txt".to_string(), 0, Err("disk full".to_string())),
    ];
    let batch = summarize_exports(&results);
    assert_eq!(batch.total_images, 2);
    assert_eq!(batch.successful_exports, 0);
    assert_eq!(batch.failed_exports, 2);
    assert_eq!(
        batch.summary,
        "Failed to export any YOLO annotations. Errors: Unsupported image format, Failed to write file: disk full"
    );
}

#[test]
fn empty_batch_has_nothing_exported() {
    let batch = summarize_exports(&Vec::new());
    assert_eq!(batch.total_images, 0);
    assert_eq!(batch.successful_exports, 0);
    assert_eq!(batch.failed_exports, 0);
    assert_eq!(batch.summary, "Failed to export any YOLO annotations. Errors: ");
}
