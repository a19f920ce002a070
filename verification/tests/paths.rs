use yolo_annotations::path::image_path_to_annotation_path;

fn derived(path: &str) -> Option<String> {
    image_path_to_annotation_path(path)
}

#[test]
fn jpg_becomes_txt() {
    assert_eq!(derived("photo.jpg"), Some("photo.txt".to_string()));
}

#[test]
fn jpeg_becomes_txt() {
    assert_eq!(derived("photo.jpeg"), Some("photo.txt".to_string()));
}

#[test]
fn png_becomes_txt() {
    assert_eq!(derived("image.png"), Some("image.txt".to_string()));
}

#[test]
fn bmp_is_unsupported() {
    assert_eq!(derived("image.bmp"), None);
}

#[test]
fn extensions_are_case_sensitive() {
    assert_eq!(derived("photo.JPG"), None);
    assert_eq!(derived("photo.Png"), None);
}

#[test]
fn path_without_extension_is_unsupported() {
    assert_eq!(derived(""), None);
    assert_eq!(derived("jpg"), None);
    assert_eq!(derived("photo"), None);
    assert_eq!(derived("photo.jpg.bak"), None);
}

#[test]
fn bare_extension_is_supported() {
    assert_eq!(derived(".jpg"), Some(".txt".to_string()));
    assert_eq!(derived(".jpeg"), Some(".txt".to_string()));
}

#[test]
fn only_the_trailing_extension_is_replaced() {
    assert_eq!(derived("shots.jpg/photo.png"), Some("shots.jpg/photo.txt".to_string()));
    assert_eq!(derived("a.png.jpg"), Some("a.png.txt".to_string()));
    assert_eq!(derived("a.jpg.jpeg"), Some("a.jpg.txt".to_string()));
    assert_eq!(derived("/data/x.jpeg/y.jpg"), Some("/data/x.jpeg/y.txt".to_string()));
}

#[test]
fn directories_and_unicode_are_kept() {
    assert_eq!(derived("/home/ann/фото 01.jpeg"), Some("/home/ann/фото 01.txt".to_string()));
    assert_eq!(derived("C:\\images\\猫.png"), Some("C:\\images\\猫.txt".to_string()));
}

#[test]
fn annotation_path_keeps_everything_before_the_extension() {
    for (image, cut) in [("a/b/c.jpg", 4), ("x.y.z.jpeg", 5), ("плакат.png", 4)] {
        let path = derived(image).unwrap();
        let stem: String = image.chars().take(image.chars().count() - cut).collect();
        assert!(path.ends_with(".txt"));
        assert_eq!(path, format!("{}.txt", stem));
        assert_eq!(derived(&path), None);
    }
}
