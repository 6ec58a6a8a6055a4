use telegraph_rs::account::Telegraph;
use telegraph_rs::error::Error;
use telegraph_rs::upload::{guess_mime, mime_of, FormPart, MediaType, Upload};

fn file(name: &str) -> Upload {
    Upload {
        bytes: name.as_bytes().to_vec(),
        mime: guess_mime(name),
        file_name: Some(name.to_owned()),
    }
}

#[test]
fn guess_mime_goes_by_the_extension() {
    assert_eq!(guess_mime("1.jpeg"), "image/jpeg");
    assert_eq!(guess_mime("dir/photo.PNG"), "image/png");
    assert_eq!(guess_mime("notes.txt"), "text/plain");
}

#[test]
fn guess_mime_keeps_the_suffix() {
    assert_eq!(guess_mime("drawing.svg"), "image/svg+xml");
}

#[test]
fn guess_mime_defaults_to_text_plain() {
    assert_eq!(guess_mime("no_extension"), "text/plain");
    assert_eq!(guess_mime("archive.not-an-extension"), "text/plain");
    assert_eq!(guess_mime(""), "text/plain");
}

#[test]
fn mime_of_puts_the_parts_together() {
    let plain = MediaType { kind: "a".to_owned(), subtype: "b".to_owned(), suffix: None };
    assert_eq!(mime_of(&Some(plain)), "a/b");
    let suffixed =
        MediaType { kind: "a".to_owned(), subtype: "b".to_owned(), suffix: Some("c".to_owned()) };
    assert_eq!(mime_of(&Some(suffixed)), "a/b+c");
    assert_eq!(mime_of(&None), "text/plain");
}

#[test]
fn upload() {
    let form = Telegraph::upload_with(vec![Ok(file("1.jpeg")), Ok(file("2.jpeg"))]);
    println!("{:?}", form);
    assert!(form.is_ok());
    assert_eq!(
        form,
        Ok(vec![
            FormPart { name: "0".to_owned(), upload: file("1.jpeg") },
            FormPart { name: "1".to_owned(), upload: file("2.jpeg") },
        ])
    );
}

#[test]
fn upload_with_names_parts_by_position() {
    let files: Vec<Result<Upload, Error>> = (0..12).map(|i| Ok(file(&format!("{}.png", i)))).collect();
    let form = Telegraph::upload_with(files).unwrap();
    assert_eq!(form.len(), 12);
    assert_eq!(form[0].name, "0");
    assert_eq!(form[9].name, "9");
    assert_eq!(form[10].name, "10");
    assert_eq!(form[11].name, "11");
    assert_eq!(form[11].upload, file("11.png"));
    assert_eq!(Telegraph::upload_with(vec![]), Ok(vec![]));
}

#[test]
fn upload_with_fails_with_the_first_failure() {
    let files = vec![
        Ok(file("1.jpeg")),
        Err(Error::Io("first".to_owned())),
        Ok(file("2.jpeg")),
        Err(Error::Io("second".to_owned())),
    ];
    assert_eq!(Telegraph::upload_with(files), Err(Error::Io("first".to_owned())));
}
