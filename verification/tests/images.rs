use taskboard::images::{extension_of, image_path, images_dir, stored_image_name, upload_image};

fn is_hyphenated(id: &str) -> bool {
    let chars: Vec<char> = id.chars().collect();
    chars.len() == 36
        && chars.iter().enumerate().all(|(i, c)| {
            if i == 8 || i == 13 || i == 18 || i == 23 {
                *c == '-'
            } else {
                c.is_ascii_digit() || ('a'..='f').contains(c)
            }
        })
}

#[test]
fn the_extension_is_what_follows_the_last_dot() {
    assert_eq!(extension_of("photo.jpg"), "jpg");
    assert_eq!(extension_of("archive.tar.gz"), "gz");
    assert_eq!(extension_of(".bashrc"), "bashrc");
    assert_eq!(extension_of("dir.d/file.PNG"), "PNG");
    assert_eq!(extension_of("dir.d/file"), "d/file");
}

#[test]
fn the_extension_defaults_to_png() {
    assert_eq!(extension_of("photo"), "png");
    assert_eq!(extension_of(""), "png");
}

#[test]
fn a_trailing_dot_gives_the_empty_extension() {
    assert_eq!(extension_of("photo."), "");
    assert_eq!(extension_of("."), "");
}

#[test]
fn a_stored_name_is_identifier_dot_extension() {
    assert_eq!(stored_image_name("abc", "photo.jpg"), "abc.jpg");
    assert_eq!(stored_image_name("abc", "photo"), "abc.png");
    assert_eq!(stored_image_name("abc", "photo."), "abc.");
}

#[test]
fn a_stored_name_has_the_extension_of_the_upload() {
    let name = stored_image_name("67e55044-10b1-426f-9247-bb680e5fe0c8", "scan.final.jpeg");
    assert_eq!(extension_of(&name), extension_of("scan.final.jpeg"));
    let plain = stored_image_name("67e55044-10b1-426f-9247-bb680e5fe0c8", "scan");
    assert_eq!(extension_of(&plain), "png");
}

#[test]
fn images_live_below_the_configuration_directory() {
    assert_eq!(images_dir("config"), "config/images");
    assert_eq!(image_path("config", "abc.jpg"), "config/images/abc.jpg");
}

#[test]
fn an_upload_gets_a_fresh_hyphenated_identifier() {
    let upload = upload_image("config", "photo.jpg");
    assert_eq!(upload.name.chars().count(), 40);
    assert!(upload.name.ends_with(".jpg"));
    assert!(is_hyphenated(&upload.name[..36]));
    assert_eq!(upload.name.chars().nth(14), Some('4'));
    assert_eq!(upload.directory, "config/images");
    assert_eq!(upload.path, format!("config/images/{}", upload.name));
    assert_eq!(upload.path, image_path("config", &upload.name));
}

#[test]
fn an_upload_without_extension_is_stored_as_png() {
    let upload = upload_image("config", "clipboard");
    assert!(upload.name.ends_with(".png"));
    assert_eq!(extension_of(&upload.name), "png");
    assert!(is_hyphenated(&upload.name[..36]));
}

#[test]
fn two_uploads_get_two_names() {
    let first = upload_image("config", "photo.jpg");
    let second = upload_image("config", "photo.jpg");
    assert_ne!(first.name, second.name);
    assert_ne!(first.path, second.path);
}
