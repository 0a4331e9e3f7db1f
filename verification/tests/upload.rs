use mtproto_satori::upload::{
    file_image_kind, file_image_name, file_media_name, input_kind, parse_data_url, prepare_data_image,
    prepare_data_media, remote_image_plan, remote_media_name, upload_kind, InputKind, MediaError, UploadKind,
};

const PNG_B64: &str = "iVBORw0KGgoAAAANSUhEUgAAAAEAAAABCAIAAACQd1PeAAAADElEQVR4nGP4z8AAAAMBAQDJ/pLvAAAAAElFTkSuQmCC";
const JPEG_B64: &str = "/9j/4AAAAAAAAAAAAAAAAAAAAAAAAAAA";
const GIF_B64: &str = "R0lGODlhAAAAAAAAAAAAAA==";

#[test]
fn data_url_header() {
    assert_eq!(
        parse_data_url("data:image/png;base64,AAAA"),
        Some(("image/png".to_string(), "AAAA".to_string()))
    );
    assert_eq!(
        parse_data_url("data:application/vnd.a+b-c;base64,"),
        Some(("application/vnd.a+b-c".to_string(), String::new()))
    );
    assert_eq!(parse_data_url("data:;base64,AAAA"), None);
    assert_eq!(parse_data_url("data:image/png,AAAA"), None);
    assert_eq!(parse_data_url("data:image png;base64,AAAA"), None);
    assert_eq!(parse_data_url("https://example.com/a.png"), None);
    assert_eq!(parse_data_url("xdata:image/png;base64,AAAA"), None);
    assert_eq!(
        parse_data_url("data:éß/ü;base64,x;base64,y"),
        Some(("éß/ü".to_string(), "x;base64,y".to_string()))
    );
}

#[test]
fn data_image_png_and_gif() {
    let p = prepare_data_image("image/whatever", PNG_B64, None).ok().unwrap();
    assert_eq!(p.mime, "image/png");
    assert_eq!(p.name, "file.png");
    assert_eq!(&p.data[1..4], b"PNG");
    let p = prepare_data_image("image/png", PNG_B64, Some("")).ok().unwrap();
    assert_eq!(p.name, "file.png");
    let p = prepare_data_image("image/png", PNG_B64, Some("cat")).ok().unwrap();
    assert_eq!(p.name, "cat.png");
    let p = prepare_data_image("image/png", PNG_B64, Some("cat.png")).ok().unwrap();
    assert_eq!(p.name, "cat.png");
    let p = prepare_data_image("image/png", PNG_B64, Some(".png")).ok().unwrap();
    assert_eq!(p.name, ".png.png");
    let p = prepare_data_image("image/png", GIF_B64, Some("a.gif")).ok().unwrap();
    assert_eq!(p.mime, "image/gif");
    assert_eq!(p.name, "a.gif");
}

#[test]
fn data_image_needs_conversion_fails() {
    // `infer` reads JPEG bytes as `image/jpeg`, which is converted, and the conversion of a
    // reader without a format fails.
    assert!(matches!(prepare_data_image("image/jpeg", JPEG_B64, None), Err(MediaError::Image(_))));
    assert!(matches!(prepare_data_image("text/plain", "aGVsbG8=", None), Err(MediaError::Image(_))));
}

#[test]
fn data_image_bad_base64() {
    assert!(matches!(prepare_data_image("image/png", "!!!", None), Err(MediaError::Base64(_))));
    assert!(matches!(prepare_data_media("image/png", "a", None), Err(MediaError::Base64(_))));
}

#[test]
fn data_media_names() {
    let p = prepare_data_media("text/plain", "aGVsbG8gd29ybGQ=", None).ok().unwrap();
    assert_eq!(p.data, b"hello world".to_vec());
    assert_eq!(p.name, "file.asm");
    let p = prepare_data_media("text/plain", "aGVsbG8gd29ybGQ=", Some("notes")).ok().unwrap();
    assert_eq!(p.name, "notes");
    let p = prepare_data_media("x/unknown", "aGVsbG8gd29ybGQ=", None).ok().unwrap();
    assert_eq!(p.name, "file.bin");
    let p = prepare_data_media("x/unknown", PNG_B64, None).ok().unwrap();
    assert_eq!(p.name, "file.png");
}

#[test]
fn file_image_kinds_and_names() {
    let k = file_image_kind(Some(("image/png".to_string(), "png".to_string())));
    assert_eq!((k.mime.as_str(), k.ext.as_str(), k.use_temp_file), ("image/png", "png", false));
    let k = file_image_kind(Some(("image/jpeg".to_string(), "jpg".to_string())));
    assert_eq!((k.mime.as_str(), k.ext.as_str(), k.use_temp_file), ("image/png", "png", true));
    assert!(k.convert);
    let k = file_image_kind(None);
    assert_eq!((k.mime.as_str(), k.ext.as_str(), k.use_temp_file), ("image/png", "png", true));
    let k = file_image_kind(Some(("image/jpg".to_string(), "jpg".to_string())));
    assert!(!k.use_temp_file);
    assert!(!k.convert);
    assert_eq!(file_image_name(None, "photo.jpg", "jpg"), "photo.jpg");
    assert_eq!(file_image_name(Some(""), "photo", "png"), "photo.png");
    assert_eq!(file_image_name(Some("x"), "photo", "png"), "x.png");
    assert_eq!(file_media_name(Some("")), None);
    assert_eq!(file_media_name(Some("a")), Some("a".to_string()));
    assert_eq!(file_media_name(None), None);
}

#[test]
fn remote_names() {
    assert_eq!(remote_media_name("https://example.com/a/b.png", None).ok(), Some("b.png".to_string()));
    assert_eq!(remote_media_name("https://example.com", None).ok(), Some(String::new()));
    assert_eq!(remote_media_name("https://example.com/a/", Some("n")).ok(), Some("n".to_string()));
    assert!(matches!(remote_media_name("not a url", None), Err(MediaError::Url(_))));
    assert!(matches!(remote_media_name("data:text/plain,x", None), Err(MediaError::NoPathSegment)));
}

#[test]
fn remote_image_plans() {
    let p = remote_image_plan("https://e.com/p/cat", None, Some("image/png"), Some(10)).ok().unwrap();
    assert!(p.stream && !p.convert);
    assert_eq!((p.name.as_str(), p.mime.as_str()), ("cat.png", "image/png"));
    let p = remote_image_plan("https://e.com/p/cat.gif", None, Some("image/gif"), None).ok().unwrap();
    assert!(!p.stream && !p.convert);
    assert_eq!((p.name.as_str(), p.mime.as_str()), ("cat.gif", "image/gif"));
    let p = remote_image_plan("https://e.com/p/cat.jpg", None, Some("image/jpeg"), Some(3)).ok().unwrap();
    assert!(!p.stream && p.convert);
    assert_eq!((p.name.as_str(), p.mime.as_str()), ("cat.jpg.png", "image/png"));
    let p = remote_image_plan("https://e.com/x", Some("y"), None, Some(3)).ok().unwrap();
    assert!(!p.stream && p.convert);
    assert_eq!(p.name, "y.png");
    assert!(remote_image_plan("::", None, Some("image/png"), Some(1)).is_err());
}

#[test]
fn kinds_of_uploads() {
    assert!(upload_kind("img") == Some(UploadKind::Image));
    assert!(upload_kind("image") == Some(UploadKind::Image));
    assert!(upload_kind("audio") == Some(UploadKind::Audio));
    assert!(upload_kind("video") == Some(UploadKind::Video));
    assert!(upload_kind("file") == Some(UploadKind::File));
    assert!(upload_kind("b") == None);
    assert!(input_kind(UploadKind::Image, "image/gif") == InputKind::File);
    assert!(input_kind(UploadKind::Image, "image/png") == InputKind::Photo);
    assert!(input_kind(UploadKind::Audio, "") == InputKind::Document);
    assert!(input_kind(UploadKind::Video, "") == InputKind::Document);
    assert!(input_kind(UploadKind::File, "") == InputKind::File);
}
