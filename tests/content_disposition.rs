use yukikaze::content_disposition::{ContentDisposition, Filename, ParseError};

#[test]
fn parse_file_name_extended_ascii() {
    const INPUT: &'static str = "rori.mp4";
    let file_name = Filename::with_encoded_name(INPUT);
    assert!(!file_name.is_extended());
}

#[test]
fn parse_file_name_extended_non_ascii() {
    const INPUT: &'static str = "ロリへんたい.mp4";
    let file_name = Filename::with_encoded_name(INPUT);
    assert!(file_name.is_extended());
}

#[test]
fn encoded_name_values() {
    match Filename::with_encoded_name("rori.mp4") {
        Filename::Name(Some(name)) => assert_eq!(name, "rori.mp4"),
        _ => panic!("Wrong Filename type"),
    }
    match Filename::with_encoded_name("£ rates.txt") {
        Filename::Extended(None, value) => assert_eq!(value, "%C2%A3%20rates.txt"),
        _ => panic!("Wrong Filename type"),
    }
    let f = Filename::with_encoded_name("ロリ.mp4");
    assert_eq!(f.name().as_deref(), Some("ロリ.mp4"));
}

#[test]
fn parse_inline_disp() {
    const INPUT: &'static str = "inline";

    let result = ContentDisposition::from_str(INPUT).expect("To have inline Disposition");

    let result = match result {
        ContentDisposition::Inline => result.to_string(),
        _ => panic!("Invalid Content Disposition"),
    };

    assert_eq!(result, INPUT);
}

#[test]
fn parse_attach_disp_wo_filename() {
    const INPUT: &'static str = "attachment; filename";

    let result = ContentDisposition::from_str(INPUT).expect("To have attachment Disposition");

    let result_text = result.to_string();

    match result {
        ContentDisposition::Attachment(file) => match file {
            Filename::Name(name) => assert!(name.is_none()),
            _ => panic!("Wrong Filename type"),
        },
        _ => panic!("Invalid Content Disposition"),
    }

    assert_eq!(result_text, "attachment");
}

#[test]
fn parse_attach_disp_w_filename() {
    const INPUT: &'static str = "attachment; filename=\"lolka.jpg\";filename=\"lolka2.jpg\"";

    let result = ContentDisposition::from_str(INPUT).expect("To have attachment Disposition");

    let result_text = result.to_string();

    match result {
        ContentDisposition::Attachment(file) => match file {
            Filename::Name(name) => assert_eq!(name.expect("Filename value"), "lolka2.jpg"),
            _ => panic!("Wrong Filename type"),
        },
        _ => panic!("Invalid Content Disposition"),
    }

    assert_eq!(result_text, "attachment; filename=\"lolka2.jpg\"");
}

#[test]
fn parse_attach_disp_w_filename_ext() {
    const EXPECT_INPUT: &'static str = "attachment; filename*=utf-8'en'%C2%A3%20and%20%E2%82%AC%20rates";
    const INPUT: &'static str = "attachment;\t filename*=UTF-8'en'%C2%A3%20and%20%E2%82%AC%20rates";

    let result = ContentDisposition::from_str(INPUT).expect("To have attachment Disposition");

    let result_text = result.to_string();

    match result {
        ContentDisposition::Attachment(file) => {
            assert!(file.is_extended());

            let expected_value = "£ and € rates";
            let value = file.name().expect("To have file name");
            assert_eq!(value, expected_value);
        },
        _ => panic!("Invalid Content Disposition"),
    }

    assert_eq!(result_text, EXPECT_INPUT);
}

#[test]
fn parse_form_data() {
    const EXPECT_INPUT: &'static str = "form-data; name=\"lolka\"; filename=\"lolka.jpg\"";
    const INPUT: &'static str = "form-data;\t name=\"lolka\";filename=\"lolka.jpg\"";

    let result = ContentDisposition::from_str(INPUT).expect("To have form-data Disposition");

    let result_text = result.to_string();

    match result {
        ContentDisposition::FormData(name, file) => {
            assert_eq!(name.expect("To have form-data name"), "lolka");
            match file {
                Filename::Name(name) => assert_eq!(name.expect("Filename value"), "lolka.jpg"),
                _ => panic!("Wrong Filename type"),
            }
        },
        _ => panic!("Invalid Content Disposition"),
    }

    assert_eq!(result_text, EXPECT_INPUT);
}

#[test]
fn parse_form_data_wo_params() {
    const INPUT: &'static str = "form-data";

    let result = ContentDisposition::from_str(INPUT).expect("To have form-data Disposition");

    let result_text = result.to_string();

    match result {
        ContentDisposition::FormData(name, file) => {
            assert!(name.is_none());
            match file {
                Filename::Name(name) => assert!(name.is_none()),
                _ => panic!("Wrong Filename type"),
            }
        },
        _ => panic!("Invalid Content Disposition"),
    }

    assert_eq!(result_text, INPUT);
}

#[test]
fn parse_form_data_wo_name() {
    const INPUT: &'static str = "form-data; filename=\"lolka.jpg\"";

    let result = ContentDisposition::from_str(INPUT).expect("To have form-data Disposition");

    let result_text = result.to_string();

    match result {
        ContentDisposition::FormData(name, file) => {
            assert!(name.is_none());
            match file {
                Filename::Name(name) => assert_eq!(name.expect("Filename value"), "lolka.jpg"),
                _ => panic!("Wrong Filename type"),
            }
        },
        _ => panic!("Invalid Content Disposition"),
    }

    assert_eq!(result_text, INPUT);
}

#[test]
fn parse_form_data_wo_filename() {
    const INPUT: &'static str = "form-data; name=\"lolka\"";

    let result = ContentDisposition::from_str(INPUT).expect("To have form-data Disposition");

    let result_text = result.to_string();

    match result {
        ContentDisposition::FormData(name, file) => {
            assert_eq!(name.expect("To have form-data name"), "lolka");
            match file {
                Filename::Name(name) => assert!(name.is_none()),
                _ => panic!("Wrong Filename type"),
            }
        },
        _ => panic!("Invalid Content Disposition"),
    }

    assert_eq!(result_text, INPUT);
}

#[test]
fn parse_errors() {
    assert_eq!(ContentDisposition::from_str("bogus").err(), Some(ParseError::InvalidDispositionType));
    assert_eq!(ContentDisposition::from_str("attachment; size=3").err(), Some(ParseError::UnknownAttachmentParam));
    assert_eq!(ContentDisposition::from_str("attachment; x=3").err(), Some(ParseError::UnknownAttachmentParam));
    assert_eq!(ContentDisposition::from_str("form-data; size=3").err(), Some(ParseError::UnknownFormParam));
    assert_eq!(ContentDisposition::from_str("attachment; filenamefoo=x").err(), Some(ParseError::UnknownAttachmentParam));
    assert_eq!(ContentDisposition::from_str("form-data; filename**=x").err(), Some(ParseError::UnknownFormParam));
}

#[test]
fn parse_case_and_extended_wins() {
    let d = ContentDisposition::from_str("  ATTACHMENT ; FileName=\"a.txt\"  ").expect("To parse");
    assert_eq!(d.to_string(), "attachment; filename=\"a.txt\"");

    let d = ContentDisposition::from_str("form-data; filename*=utf-8''%41; filename=\"b\"").expect("To parse");
    match d {
        ContentDisposition::FormData(None, f) => {
            assert!(f.is_extended());
            assert_eq!(f.into_name().as_deref(), Some("A"));
        },
        _ => panic!("Invalid Content Disposition"),
    }
}
