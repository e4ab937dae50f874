use quick_look::error::Error;
use quick_look::utils::Utils;

#[test]
fn image_bytes_are_wrapped_into_a_data_uri() {
    assert_eq!(Utils::generate_image(b"hello".to_vec()), "data:image/png;base64,aGVsbG8=");
    assert_eq!(Utils::generate_image(Vec::new()), "data:image/png;base64,");
    assert_eq!(Utils::generate_image(vec![0xfb, 0xff, 0xfe]), "data:image/png;base64,+//+");
    assert_eq!(Utils::generate_image(vec![0]), "data:image/png;base64,AA==");
}

#[test]
fn error_shows_its_message() {
    let err = Error::Error("no such file".to_string());
    assert_eq!(err.to_string(), "no such file");
    assert_eq!(err.clone(), err);
}
