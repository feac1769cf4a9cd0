use image::ImageFormat;
use imgext::{
    display_filename, guess_format, is_allowed_extension, preferred_extension, read_extension,
    reconcile, replace_extension, Args, Error, Outcome, SniffPolicy,
};

const PNG_SIGNATURE: [u8; 8] = [0x89, b'P', b'N', b'G', b'\r', b'\n', 0x1a, b'\n'];

fn png_bytes() -> Vec<u8> {
    let mut bytes = PNG_SIGNATURE.to_vec();
    bytes.extend_from_slice(&[0, 0, 0, 13, b'I', b'H', b'D', b'R']);
    bytes
}

#[test]
fn extension_is_what_follows_the_last_dot() {
    assert_eq!(read_extension("a.jpg").unwrap(), "jpg");
    assert_eq!(read_extension("dir/x.tar.gz").unwrap(), "gz");
    assert_eq!(read_extension("dir.d/photo.PNG").unwrap(), "PNG");
}

#[test]
fn trailing_dot_gives_an_empty_extension() {
    assert_eq!(read_extension("a.").unwrap(), "");
}

#[test]
fn no_dot_is_a_bad_extension() {
    match read_extension("noext") {
        Err(Error::BadExtension(p)) => assert_eq!(p, "noext"),
        other => panic!("unexpected {other:?}"),
    }
}

#[test]
fn dot_in_directory_only_is_a_bad_extension() {
    assert!(matches!(read_extension("dir.d/noext"), Err(Error::BadExtension(_))));
    assert!(matches!(read_extension("dir.d/"), Err(Error::BadExtension(_))));
}

#[test]
fn file_name_drops_the_directory() {
    assert_eq!(display_filename("dir/sub/a.jpg"), "a.jpg");
    assert_eq!(display_filename("a.jpg"), "a.jpg");
    assert_eq!(display_filename("/abs/b.png"), "b.png");
}

#[test]
fn file_name_passes_over_trailing_separators_and_dots() {
    assert_eq!(display_filename("a/b/"), "b");
    assert_eq!(display_filename("a//"), "a");
    assert_eq!(display_filename("a/./"), "a");
    assert_eq!(display_filename("./a.png"), "a.png");
}

#[test]
fn path_without_file_name_is_shown_whole() {
    assert_eq!(display_filename("/"), "/");
    assert_eq!(display_filename("a/.."), "a/..");
    assert_eq!(display_filename(".."), "..");
    assert_eq!(display_filename("."), ".");
    assert_eq!(display_filename(""), "");
}

#[test]
fn replacing_the_extension_keeps_directory_and_stem() {
    assert_eq!(replace_extension("dir.d/a.b.jpg", "png").unwrap(), "dir.d/a.b.png");
    assert_eq!(replace_extension("a.", "gif").unwrap(), "a.gif");
    assert!(replace_extension("noext", "png").is_none());
}

#[test]
fn preferred_extensions_of_some_formats() {
    assert_eq!(preferred_extension(ImageFormat::Png), "png");
    assert_eq!(preferred_extension(ImageFormat::Jpeg), "jpg");
    assert_eq!(preferred_extension(ImageFormat::Tiff), "tiff");
    assert_eq!(preferred_extension(ImageFormat::Pnm), "pbm");
}

#[test]
fn preferred_extension_is_allowed_for_every_format() {
    let formats = [
        ImageFormat::Png,
        ImageFormat::Jpeg,
        ImageFormat::Gif,
        ImageFormat::WebP,
        ImageFormat::Pnm,
        ImageFormat::Tiff,
        ImageFormat::Tga,
        ImageFormat::Dds,
        ImageFormat::Bmp,
        ImageFormat::Ico,
        ImageFormat::Hdr,
        ImageFormat::OpenExr,
        ImageFormat::Farbfeld,
        ImageFormat::Avif,
        ImageFormat::Qoi,
    ];
    for f in formats {
        assert!(is_allowed_extension(preferred_extension(f), f));
    }
}

#[test]
fn allowed_extensions_ignore_ascii_case() {
    assert!(is_allowed_extension("PNG", ImageFormat::Png));
    assert!(is_allowed_extension("JpEg", ImageFormat::Jpeg));
    assert!(is_allowed_extension("tif", ImageFormat::Tiff));
    assert!(!is_allowed_extension("png", ImageFormat::Jpeg));
    assert!(!is_allowed_extension("pn", ImageFormat::Png));
    assert!(!is_allowed_extension("", ImageFormat::Png));
}

#[test]
fn png_signature_is_sniffed() {
    assert_eq!(guess_format("a.jpg", &png_bytes()).unwrap(), ImageFormat::Png);
    assert_eq!(guess_format("b.gif", b"GIF89a....").unwrap(), ImageFormat::Gif);
    assert_eq!(guess_format("c", &[0xff, 0xd8, 0xff, 0xe0]).unwrap(), ImageFormat::Jpeg);
}

#[test]
fn unknown_signature_names_the_path() {
    match guess_format("dir/notes.png", b"hello, world") {
        Err(e @ Error::Image(_)) => {
            if let Error::Image(b) = &e {
                assert_eq!(b.path, "dir/notes.png");
            }
            assert!(e.message().ends_with(" (dir/notes.png)"));
        }
        other => panic!("unexpected {other:?}"),
    }
}

#[test]
fn upper_case_extension_matches() {
    let format = guess_format("photo.PNG", &png_bytes()).unwrap();
    for force in [false, true] {
        let upper = reconcile("photo.PNG", format, force).unwrap();
        let lower = reconcile("photo.png", format, force).unwrap();
        assert_eq!(upper, Outcome::Match);
        assert_eq!(lower, Outcome::Match);
        assert_eq!(upper.message("photo.PNG"), None);
    }
}

#[test]
fn alternative_extension_matches() {
    assert_eq!(reconcile("x.JPEG", ImageFormat::Jpeg, true).unwrap(), Outcome::Match);
}

#[test]
fn png_named_jpg_is_reported() {
    let format = guess_format("a.jpg", &png_bytes()).unwrap();
    let outcome = reconcile("a.jpg", format, false).unwrap();
    assert_eq!(outcome, Outcome::Suggest { extension: "png".to_string() });
    assert_eq!(outcome.message("a.jpg").unwrap(), "a.jpg -> png");
}

#[test]
fn png_named_jpg_is_renamed_when_forced() {
    let format = guess_format("a.jpg", &png_bytes()).unwrap();
    let outcome = reconcile("a.jpg", format, true).unwrap();
    assert_eq!(outcome, Outcome::Rename { to: "a.png".to_string() });
    assert_eq!(outcome.message("a.jpg").unwrap(), "a.png");
}

#[test]
fn report_shows_file_names_only() {
    let suggest = reconcile("some/dir/a.jpg", ImageFormat::Gif, false).unwrap();
    assert_eq!(suggest.message("some/dir/a.jpg").unwrap(), "a.jpg -> gif");
    let rename = reconcile("some/dir/a.jpg", ImageFormat::Gif, true).unwrap();
    assert_eq!(rename, Outcome::Rename { to: "some/dir/a.gif".to_string() });
    assert_eq!(rename.message("some/dir/a.jpg").unwrap(), "a.gif");
}

#[test]
fn path_without_extension_is_fatal() {
    for force in [false, true] {
        match reconcile("noext", ImageFormat::Png, force) {
            Err(e @ Error::BadExtension(_)) => {
                assert_eq!(e.message(), "no usable extension: noext");
            }
            other => panic!("unexpected {other:?}"),
        }
    }
}

#[test]
fn error_constructors_keep_the_path() {
    match Error::bad_extension("x/y") {
        Error::BadExtension(p) => assert_eq!(p, "x/y"),
        other => panic!("unexpected {other:?}"),
    }
    let cause = guess_format("z", b"??").unwrap_err();
    let e = match cause {
        Error::Image(b) => Error::bad_image("w.png", b.error),
        other => panic!("unexpected {other:?}"),
    };
    assert!(e.message().ends_with(" (w.png)"));
}

#[test]
fn paths_keep_their_order() {
    let args = Args { images: vec!["b.png".to_string(), "a.jpg".to_string()], force: false };
    assert_eq!(args.paths(), vec!["b.png", "a.jpg"]);
}

#[test]
fn lenient_policy_skips_failures() {
    assert!(SniffPolicy::Lenient.skips_failures());
    assert!(!SniffPolicy::Strict.skips_failures());
}
