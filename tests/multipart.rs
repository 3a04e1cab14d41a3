use std::str;
use yukikaze::multipart::Form;

#[test]
fn multipart_form_add_simple_field() {
    const EXPECTED: &'static str = "--yuki\r\nContent-Disposition: form-data; name=\"SimpleField\"\r\n\r\nsimple test\r\n--yuki--\r\n";

    let mut form = Form::new();
    form.add_field("SimpleField".to_string(), "simple test".as_bytes());

    let (len, body) = form.finish();
    let str_body = str::from_utf8(&body).expect("To get str slice of body");
    assert_eq!(len, EXPECTED.len() as u64);
    assert_eq!(str_body, EXPECTED);
}

#[test]
fn multipart_form_add_multiple_fields() {
    const EXPECTED: &'static str = "--yuki\r\nContent-Disposition: form-data; name=\"SimpleField\"\r\n\r\nsimple test\r\n--yuki\r\n--yuki\r\nContent-Disposition: form-data; name=\"SimpleFile\"; filename=\"File.txt\"\r\nContent-Type: text/plain\r\n\r\nsimple file\r\n--yuki--\r\n";

    let mut form = Form::new();
    form.add_field("SimpleField".to_string(), "simple test".as_bytes());
    form.add_file_field("SimpleFile".to_string(), "File.txt".to_string(), "text/plain", "simple file".as_bytes());

    let (len, body) = form.finish();
    let str_body = str::from_utf8(&body).expect("To get str slice of body");
    assert_eq!(len, EXPECTED.len() as u64);
    assert_eq!(str_body, EXPECTED);
}

#[test]
fn empty_form_finishes_empty() {
    let form = Form::new();
    let (len, body) = form.finish();
    assert_eq!(len, 0);
    assert!(body.is_empty());
}

#[test]
fn custom_boundary_and_guessed_type() {
    let mut form = Form::with_boundary("b0und");
    form.add_file_data("f".to_string(), Some("x.json".to_string()), b"{}");
    form.add_file_data("g".to_string(), None, b"raw");
    let (_, body) = form.finish();
    let text = str::from_utf8(&body).expect("utf-8");
    assert_eq!(
        text,
        "--b0und\r\nContent-Disposition: form-data; name=\"f\"; filename=\"x.json\"\r\nContent-Type: application/json\r\n\r\n{}\r\n--b0und\r\n--b0und\r\nContent-Disposition: form-data; name=\"g\"\r\nContent-Type: application/octet-stream\r\n\r\nraw\r\n--b0und--\r\n"
    );
}

#[test]
fn truncate_drops_partial_part() {
    let mut form = Form::new();
    form.add_field("a".to_string(), b"1");
    let keep = form.len();
    form.add_field("b".to_string(), b"2");
    form.truncate(keep);
    let (_, body) = form.finish();
    assert_eq!(body, b"--yuki\r\nContent-Disposition: form-data; name=\"a\"\r\n\r\n1\r\n--yuki--\r\n".to_vec());
}
