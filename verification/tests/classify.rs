use image_format::ImageFormat;
use image_format::ImageFormatError;

#[test]
fn jpg_classifies_to_jpeg() {
    assert_eq!(ImageFormat::from_ext("jpg"), Ok(ImageFormat::Jpeg));
}

#[test]
fn jpeg_classifies_to_jpeg() {
    assert_eq!(ImageFormat::from_ext("jpeg"), Ok(ImageFormat::Jpeg));
}

#[test]
fn png_classifies_to_png() {
    assert_eq!(ImageFormat::from_ext("png"), Ok(ImageFormat::Png));
}

#[test]
fn jxl_classifies_to_jpeg_xl() {
    assert_eq!(ImageFormat::from_ext("jxl"), Ok(ImageFormat::JpegXl));
}

#[test]
fn webp_classifies_to_webp() {
    assert_eq!(ImageFormat::from_ext("webp"), Ok(ImageFormat::WebP));
}

#[test]
fn avif_classifies_to_avif() {
    assert_eq!(ImageFormat::from_ext("avif"), Ok(ImageFormat::Avif));
}

#[test]
fn unrecognized_extension_is_unknown_verbatim() {
    assert_eq!(
        ImageFormat::from_ext("gif"),
        Err(ImageFormatError::Unknown(String::from("gif")))
    );
}

#[test]
fn matching_is_case_sensitive() {
    assert_eq!(
        ImageFormat::from_ext("PNG"),
        Err(ImageFormatError::Unknown(String::from("PNG")))
    );
    assert_eq!(
        ImageFormat::from_ext("Jpg"),
        Err(ImageFormatError::Unknown(String::from("Jpg")))
    );
}

#[test]
fn empty_extension_is_unknown_empty() {
    assert_eq!(
        ImageFormat::from_ext(""),
        Err(ImageFormatError::Unknown(String::new()))
    );
}

#[test]
fn path_with_jpg_extension() {
    assert_eq!(ImageFormat::from_path("image.jpg"), Ok(ImageFormat::Jpeg));
}

#[test]
fn path_takes_last_extension() {
    assert_eq!(
        ImageFormat::from_path("archive.tar.gz"),
        Err(ImageFormatError::Unknown(String::from("gz")))
    );
}

#[test]
fn path_without_dot_is_missing() {
    assert_eq!(
        ImageFormat::from_path("README"),
        Err(ImageFormatError::Missing)
    );
}

#[test]
fn path_with_trailing_dot_is_missing() {
    assert_eq!(
        ImageFormat::from_path("photo."),
        Err(ImageFormatError::Missing)
    );
}

#[test]
fn hidden_file_without_suffix_is_missing() {
    assert_eq!(
        ImageFormat::from_path(".gitignore"),
        Err(ImageFormatError::Missing)
    );
}

#[test]
fn hidden_file_with_suffix_classifies() {
    assert_eq!(
        ImageFormat::from_path(".cache.png"),
        Ok(ImageFormat::Png)
    );
}

#[test]
fn extension_comes_from_final_path_component() {
    assert_eq!(
        ImageFormat::from_path("shots/day.one/frame.webp"),
        Ok(ImageFormat::WebP)
    );
    assert_eq!(
        ImageFormat::from_path("some.dir/file"),
        Err(ImageFormatError::Missing)
    );
}

#[test]
fn nested_path_classifies() {
    assert_eq!(
        ImageFormat::from_path("a/b/c/photo.avif"),
        Ok(ImageFormat::Avif)
    );
}

#[test]
fn path_ending_in_separator_is_missing() {
    assert_eq!(
        ImageFormat::from_path("pictures.png/"),
        Err(ImageFormatError::Missing)
    );
}

#[test]
fn empty_path_is_missing() {
    assert_eq!(ImageFormat::from_path(""), Err(ImageFormatError::Missing));
}

#[test]
fn classification_is_idempotent() {
    assert_eq!(ImageFormat::from_ext("jpeg"), ImageFormat::from_ext("jpeg"));
    assert_eq!(ImageFormat::from_ext("bmp"), ImageFormat::from_ext("bmp"));
    assert_eq!(
        ImageFormat::from_path("cat.webp"),
        ImageFormat::from_path("cat.webp")
    );
    assert_eq!(
        ImageFormat::from_path("no_extension"),
        ImageFormat::from_path("no_extension")
    );
}

#[test]
fn every_format_has_an_extension() {
    let reached = [
        ImageFormat::from_ext("jpg"),
        ImageFormat::from_ext("png"),
        ImageFormat::from_ext("jxl"),
        ImageFormat::from_ext("webp"),
        ImageFormat::from_ext("avif"),
    ];
    for f in [
        ImageFormat::Jpeg,
        ImageFormat::Png,
        ImageFormat::JpegXl,
        ImageFormat::WebP,
        ImageFormat::Avif,
    ] {
        assert!(reached.iter().any(|r| r == &Ok(f)));
    }
}

#[test]
fn error_distinguishes_missing_from_unknown() {
    assert_ne!(
        ImageFormat::from_path("README"),
        ImageFormat::from_path("page.html")
    );
    assert_eq!(
        ImageFormat::from_path("page.html"),
        Err(ImageFormatError::Unknown(String::from("html")))
    );
}
