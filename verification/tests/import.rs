use yolo_annotations::export::{plan_export, ExportStep};
use yolo_annotations::import::{
    annotation_file_for, loaded_rectangle_id, parse_annotations, read_annotations, AnnotationFile,
    Field, LineProblem, MalformedLine,
};
use yolo_annotations::line::AnnotationFields;

fn field_texts(f: &AnnotationFields) -> [String; 5] {
    [f.class_id.clone(), f.x_center.clone(), f.y_center.clone(), f.width.clone(), f.height.clone()]
}

fn texts(parts: [&str; 5]) -> [String; 5] {
    parts.map(|p| p.to_string())
}

fn error_of(content: &str) -> MalformedLine {
    match parse_annotations(content) {
        Ok(_) => panic!("the content is malformed"),
        Err(e) => e,
    }
}

#[test]
fn missing_file_gives_no_annotations() {
    match read_annotations(AnnotationFile::Missing) {
        Ok(entries) => assert!(entries.is_empty()),
        Err(m) => panic!("a missing file is no error: {}", m),
    }
}

#[test]
fn unreadable_file_gives_the_error_behind_a_prefix() {
    match read_annotations(AnnotationFile::Unreadable("stream did not contain valid UTF-8".to_string())) {
        Ok(_) => panic!("an unreadable file is an error"),
        Err(m) => assert_eq!(m, "Failed to read annotation file: stream did not contain valid UTF-8"),
    }
}

#[test]
fn annotation_file_is_found_for_supported_images_only() {
    assert_eq!(annotation_file_for("a/b.jpg"), Ok("a/b.txt".to_string()));
    assert_eq!(annotation_file_for("a/b.tiff"), Err("Unsupported image format".to_string()));
}

#[test]
fn line_with_four_fields_is_rejected_with_its_number() {
    let content = "0 0.5 0.5 0.1 0.1\n1 0.5 0.5 0.1\n2 0.5 0.5 0.1 0.1";
    let e = error_of(content);
    assert_eq!(e, MalformedLine { line: 2, problem: LineProblem::FieldCount { found: 4 } });
    assert_eq!(e.message(), "Invalid line 2: expected 5 parts, got 4");
    match read_annotations(AnnotationFile::Content(content.to_string())) {
        Ok(_) => panic!("the content is malformed"),
        Err(m) => assert_eq!(m, "Invalid line 2: expected 5 parts, got 4"),
    }
}

#[test]
fn line_with_six_fields_is_rejected() {
    let e = error_of("0 0.5 0.5 0.1 0.1 0.9");
    assert_eq!(e, MalformedLine { line: 1, problem: LineProblem::FieldCount { found: 6 } });
    assert_eq!(e.message(), "Invalid line 1: expected 5 parts, got 6");
}

#[test]
fn each_field_must_be_a_number() {
    let cases = [
        ("cat 0.5 0.5 0.1 0.1", Field::ClassId, "Invalid class ID on line 1: invalid float literal"),
        ("0 left 0.5 0.1 0.1", Field::XCenter, "Invalid x_center on line 1: invalid float literal"),
        ("0 0.5 0,5 0.1 0.1", Field::YCenter, "Invalid y_center on line 1: invalid float literal"),
        ("0 0.5 0.5 1e 0.1", Field::Width, "Invalid width on line 1: invalid float literal"),
        ("0 0.5 0.5 0.1 .", Field::Height, "Invalid height on line 1: invalid float literal"),
    ];
    for (line, field, message) in cases {
        let e = error_of(line);
        assert_eq!(e, MalformedLine { line: 1, problem: LineProblem::NotANumber { field } });
        assert_eq!(e.message(), message);
    }
}

#[test]
fn first_field_that_is_no_number_is_named() {
    let e = error_of("0 x y 0.1 0.1");
    assert_eq!(e.problem, LineProblem::NotANumber { field: Field::XCenter });
}

#[test]
fn first_malformed_line_fails_the_read() {
    let e = error_of("0 0.5 0.5 0.1 0.1\n\n0 0.5 oops 0.1 0.1\n0 1 2\n");
    assert_eq!(e, MalformedLine { line: 3, problem: LineProblem::NotANumber { field: Field::YCenter } });
    assert_eq!(e.message(), "Invalid y_center on line 3: invalid float literal");
}

#[test]
fn blank_lines_are_skipped_and_still_counted() {
    let content = "\n0 0.1 0.2 0.3 0.4\n   \t \n\n7 0.5 0.6 0.7 0.8\n";
    let entries = match parse_annotations(content) {
        Ok(entries) => entries,
        Err(e) => panic!("well-formed content: {:?}", e),
    };
    assert_eq!(entries.len(), 2);
    assert_eq!(entries[0].line_index, 1);
    assert_eq!(entries[0].id, "loaded_rect_1");
    assert_eq!(field_texts(&entries[0].fields), texts(["0", "0.1", "0.2", "0.3", "0.4"]));
    assert_eq!(entries[1].line_index, 4);
    assert_eq!(entries[1].id, "loaded_rect_4");
    assert_eq!(field_texts(&entries[1].fields), texts(["7", "0.5", "0.6", "0.7", "0.8"]));
}

#[test]
fn empty_content_has_no_entries() {
    assert!(matches!(parse_annotations(""), Ok(entries) if entries.is_empty()));
    assert!(matches!(parse_annotations("\n\n"), Ok(entries) if entries.is_empty()));
    assert!(matches!(parse_annotations(" \r\n"), Ok(entries) if entries.is_empty()));
}

#[test]
fn carriage_returns_and_extra_spaces_are_white_space() {
    let content = "0 0.5 0.5 0.1 0.1\r\n  1\t0.25  0.75 1e-1 .5  \r\n";
    let entries = match parse_annotations(content) {
        Ok(entries) => entries,
        Err(e) => panic!("well-formed content: {:?}", e),
    };
    assert_eq!(entries.len(), 2);
    assert_eq!(field_texts(&entries[0].fields), texts(["0", "0.5", "0.5", "0.1", "0.1"]));
    assert_eq!(entries[1].line_index, 1);
    assert_eq!(field_texts(&entries[1].fields), texts(["1", "0.25", "0.75", "1e-1", ".5"]));
}

#[test]
fn ids_carry_the_line_index() {
    assert_eq!(loaded_rectangle_id(0), "loaded_rect_0");
    assert_eq!(loaded_rectangle_id(42), "loaded_rect_42");
}

#[test]
fn exported_content_reads_back_as_the_same_fields() {
    let rectangles = vec![
        AnnotationFields {
            class_id: "0".to_string(),
            x_center: "0.093750".to_string(),
            y_center: "0.093750".to_string(),
            width: "0.156250".to_string(),
            height: "0.104167".to_string(),
        },
        AnnotationFields {
            class_id: "3".to_string(),
            x_center: "0.500000".to_string(),
            y_center: "0.500000".to_string(),
            width: "1.000000".to_string(),
            height: "1.000000".to_string(),
        },
    ];
    let content = match plan_export("photo.jpg", &rectangles) {
        ExportStep::Write { content, .. } => content,
        ExportStep::Rejected(_) => panic!("a jpg image is supported"),
    };
    let entries = match parse_annotations(&content) {
        Ok(entries) => entries,
        Err(e) => panic!("exported content is well formed: {:?}", e),
    };
    assert_eq!(entries.len(), 2);
    for (i, entry) in entries.iter().enumerate() {
        assert_eq!(entry.line_index, i);
        assert_eq!(field_texts(&entry.fields), field_texts(&rectangles[i]));
    }
}

#[test]
fn box_survives_export_and_import_within_precision() {
    let (w, h) = (1920u32, 1080u32);
    let boxes = [(10.0f64, 20.0f64, 100.0f64, 50.0f64), (0.0, 0.0, 1920.0, 1080.0), (333.3, 77.7, 123.456, 0.5)];
    for (x, y, width, height) in boxes {
        let fields = vec![AnnotationFields {
            class_id: format!("{:.0}", 5.0f64),
            x_center: format!("{:.6}", (x + width / 2.0) / w as f64),
            y_center: format!("{:.6}", (y + height / 2.0) / h as f64),
            width: format!("{:.6}", width / w as f64),
            height: format!("{:.6}", height / h as f64),
        }];
        let content = match plan_export("frame.png", &fields) {
            ExportStep::Write { content, .. } => content,
            ExportStep::Rejected(_) => panic!("a png image is supported"),
        };
        let entries = match parse_annotations(&content) {
            Ok(entries) => entries,
            Err(e) => panic!("exported content is well formed: {:?}", e),
        };
        assert_eq!(entries.len(), 1);
        let f = &entries[0].fields;
        let class_id: f64 = f.class_id.parse().unwrap();
        let xc: f64 = f.x_center.parse().unwrap();
        let yc: f64 = f.y_center.parse().unwrap();
        let wn: f64 = f.width.parse().unwrap();
        let hn: f64 = f.height.parse().unwrap();
        assert_eq!(class_id, 5.0);
        assert!(((xc - wn / 2.0) * w as f64 - x).abs() <= w as f64 * 1e-6);
        assert!(((yc - hn / 2.0) * h as f64 - y).abs() <= h as f64 * 1e-6);
        assert!((wn * w as f64 - width).abs() <= w as f64 * 1e-6);
        assert!((hn * h as f64 - height).abs() <= h as f64 * 1e-6);
    }
}
