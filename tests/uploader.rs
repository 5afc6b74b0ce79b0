use minio_uploader::object::{key_for_path, object_key, object_url, trim_text, trim_trailing_slashes};
use minio_uploader::session::{
    ascii_lowercase, context_menu_command, requests_uninstall, start, step, Action, Event, Report, Stage,
};
use minio_uploader::settings::{locate_config, ConfigCandidate, Settings, SettingsError};

const VALID: &str = "endpoint = \"https://s3.example.com/\"\naccess_key = \"AK\"\nsecret_key = \"SK\"\nbucket = \"photos\"\n";

fn args(items: &[&str]) -> Vec<String> {
    items.iter().map(|s| s.to_string()).collect()
}

fn finish(action: &Action) -> (&Report, i32) {
    match action {
        Action::Finish { report, exit_code } => (report, *exit_code),
        _ => panic!("the run did not finish"),
    }
}

#[test]
fn example_url_for_file_with_space() {
    let url = object_url("https://s3.example.com/", "photos", "My Trip.png");
    assert_eq!(url, "https://s3.example.com/photos/My%20Trip.png");
}

#[test]
fn url_trims_white_space_and_every_trailing_slash() {
    let url = object_url("  http://localhost:9000//  ", "b", "a.txt");
    assert_eq!(url, "http://localhost:9000/b/a.txt");
    let plain = object_url("http://host", "bucket", "x");
    assert_eq!(plain, "http://host/bucket/x");
}

#[test]
fn url_encodes_reserved_and_non_ascii_characters() {
    let url = object_url("https://h", "b", "a&b?c#d/e+f.txt");
    assert_eq!(url, "https://h/b/a%26b%3Fc%23d%2Fe%2Bf.txt");
    let url = object_url("https://h", "b", "照片 1.png");
    assert_eq!(url, "https://h/b/%E7%85%A7%E7%89%87%201.png");
    let url = object_url("https://h", "b", "Az09-_.~");
    assert_eq!(url, "https://h/b/Az09-_.~");
}

#[test]
fn encoded_key_decodes_to_the_file_name() {
    for name in ["My Trip.png", "照片 1.png", "a&b?c#d%e+f=g.txt", "Ünïcödé ~ 100%.pdf"] {
        let url = object_url("https://h/", "b", name);
        let encoded = url.strip_prefix("https://h/b/").unwrap();
        assert_eq!(urlencoding::decode(encoded).unwrap(), name);
    }
}

#[test]
fn trailing_slashes_are_removed() {
    assert_eq!(trim_trailing_slashes("abc///"), "abc");
    assert_eq!(trim_trailing_slashes("a/b"), "a/b");
    assert_eq!(trim_trailing_slashes("///"), "");
    assert_eq!(trim_trailing_slashes(""), "");
}

#[test]
fn key_falls_back_to_unknown_file() {
    assert_eq!(object_key(None), "unknown_file");
    assert_eq!(object_key(Some("a.txt".to_string())), "a.txt");
}

#[test]
fn settings_parse_all_four_fields() {
    let s = match Settings::new(VALID) {
        Ok(s) => s,
        Err(_) => panic!("valid settings refused"),
    };
    assert_eq!(s.endpoint, "https://s3.example.com/");
    assert_eq!(s.access_key, "AK");
    assert_eq!(s.secret_key, "SK");
    assert_eq!(s.bucket, "photos");
}

#[test]
fn settings_missing_field_is_invalid() {
    let text = "endpoint = \"https://h\"\naccess_key = \"AK\"\nsecret_key = \"SK\"\n";
    assert!(matches!(Settings::new(text), Err(SettingsError::Invalid(_))));
}

#[test]
fn settings_malformed_document_is_invalid() {
    assert!(matches!(Settings::new("endpoint = = ]"), Err(SettingsError::Invalid(_))));
}

#[test]
fn settings_empty_field_is_named() {
    let text = "endpoint = \"https://h\"\naccess_key = \"\"\nsecret_key = \"\"\nbucket = \"b\"\n";
    match Settings::new(text) {
        Err(SettingsError::EmptyField(k)) => assert_eq!(k, "access_key"),
        _ => panic!("empty field accepted"),
    }
}

fn candidate(path: &str, exists: bool) -> Option<ConfigCandidate> {
    Some(ConfigCandidate { path: path.to_string(), exists })
}

#[test]
fn config_prefers_the_data_directory() {
    let r = locate_config(candidate("/data/S.toml", true), candidate("/exe/S.toml", true));
    assert_eq!(r.ok().unwrap(), "/data/S.toml");
    let r = locate_config(candidate("/data/S.toml", false), candidate("/exe/S.toml", true));
    assert_eq!(r.ok().unwrap(), "/exe/S.toml");
    let r = locate_config(None, candidate("/exe/S.toml", true));
    assert_eq!(r.ok().unwrap(), "/exe/S.toml");
}

#[test]
fn config_not_found_names_both_places() {
    let e = locate_config(candidate("/data/S.toml", false), None).err().unwrap();
    assert_eq!(e.data_dir_path, "/data/S.toml");
    assert_eq!(e.exe_dir_path, "<executable_dir>\\Settings.toml");
    let e = locate_config(None, candidate("/exe/S.toml", false)).err().unwrap();
    assert_eq!(e.data_dir_path, "%APPDATA%\\MinioUploader\\Settings.toml");
    assert_eq!(e.exe_dir_path, "/exe/S.toml");
}

#[test]
fn uninstall_flag_in_any_case() {
    assert!(requests_uninstall(&args(&["p", "--UNINSTALL"])));
    assert!(requests_uninstall(&args(&["p", "/Uninstall"])));
    assert!(!requests_uninstall(&args(&["p", "--uninstal"])));
    assert!(!requests_uninstall(&args(&["p", "uninstall"])));
    assert!(!requests_uninstall(&args(&[])));
}

#[test]
fn missing_argument_is_usage_error() {
    let (stage, action) = start(args(&["up.exe"]), false);
    assert!(matches!(stage, Stage::Done));
    let (report, code) = finish(&action);
    assert!(matches!(report, Report::Usage { program } if program == "up.exe"));
    assert_eq!(code, 1);
    let (_, action) = start(args(&[]), false);
    let (report, code) = finish(&action);
    assert!(matches!(report, Report::Usage { program } if program == "minio_uploader.exe"));
    assert_eq!(code, 1);
}

#[test]
fn missing_argument_after_registration_warning() {
    let (stage, action) = start(args(&["up.exe"]), true);
    assert!(matches!(action, Action::EnsureRegistration));
    let (stage, action) = step(stage, Event::RegistrationEnsured(Err("denied".to_string())));
    assert!(matches!(&action, Action::Notify(Report::RegisterFailed { message }) if message == "denied"));
    let (_, action) = step(stage, Event::Acknowledged);
    let (report, code) = finish(&action);
    assert!(matches!(report, Report::Usage { .. }));
    assert_eq!(code, 1);
}

#[test]
fn missing_file_ends_before_upload() {
    let (stage, action) = start(args(&["up", "/no/such/file.png"]), false);
    assert!(matches!(&action, Action::CheckFile { path } if path == "/no/such/file.png"));
    let (stage, action) = step(stage, Event::FileChecked { present: false });
    assert!(matches!(stage, Stage::Done));
    let (report, code) = finish(&action);
    assert!(matches!(report, Report::FileNotFound { path } if path == "/no/such/file.png"));
    assert_eq!(code, 1);
}

#[test]
fn missing_config_ends_the_run() {
    let (stage, _) = start(args(&["up", "/tmp/a.png"]), false);
    let (stage, action) = step(stage, Event::FileChecked { present: true });
    assert!(matches!(action, Action::LocateConfig));
    let event = Event::ConfigLocated {
        data_dir: candidate("/d/Settings.toml", false),
        exe_dir: candidate("/e/Settings.toml", false),
    };
    let (stage, action) = step(stage, event);
    assert!(matches!(stage, Stage::Done));
    let (report, code) = finish(&action);
    assert!(matches!(report, Report::ConfigNotFound(e) if e.exe_dir_path == "/e/Settings.toml"));
    assert_eq!(code, 1);
}

fn run_to_upload(text: &str) -> (Stage, Action) {
    let (stage, _) = start(args(&["up", "/home/me/My Trip.png"]), false);
    let (stage, _) = step(stage, Event::FileChecked { present: true });
    let event = Event::ConfigLocated { data_dir: None, exe_dir: candidate("/e/Settings.toml", true) };
    let (stage, action) = step(stage, event);
    assert!(matches!(&action, Action::ReadConfig { path } if path == "/e/Settings.toml"));
    step(stage, Event::ConfigRead(Ok(text.to_string())))
}

#[test]
fn successful_upload_reports_the_url() {
    let (stage, action) = run_to_upload(VALID);
    match &action {
        Action::Upload { settings, key, path, .. } => {
            assert_eq!(key, "My Trip.png");
            assert_eq!(path, "/home/me/My Trip.png");
            assert_eq!(settings.bucket, "photos");
        }
        _ => panic!("no upload"),
    }
    let (stage, action) = step(stage, Event::Uploaded(Ok(())));
    assert!(matches!(&action, Action::CopyToClipboard { url } if url == "https://s3.example.com/photos/My%20Trip.png"));
    let (_, action) = step(stage, Event::Copied(Ok(())));
    let (report, code) = finish(&action);
    assert!(matches!(report, Report::Uploaded { url } if url == "https://s3.example.com/photos/My%20Trip.png"));
    assert!(!report.is_error());
    assert_eq!(code, 0);
}

#[test]
fn clipboard_failure_still_exits_zero() {
    let (stage, _) = run_to_upload(VALID);
    let (stage, _) = step(stage, Event::Uploaded(Ok(())));
    let (_, action) = step(stage, Event::Copied(Err("no display".to_string())));
    let (report, code) = finish(&action);
    assert!(matches!(report, Report::CopyFailed { url, message } if url.ends_with("My%20Trip.png") && message == "no display"));
    assert!(report.is_error());
    assert_eq!(code, 0);
}

#[test]
fn upload_failure_exits_one() {
    let (stage, _) = run_to_upload(VALID);
    let (_, action) = step(stage, Event::Uploaded(Err("access denied".to_string())));
    let (report, code) = finish(&action);
    assert!(matches!(report, Report::UploadFailed { message } if message == "access denied"));
    assert_eq!(code, 1);
}

#[test]
fn invalid_settings_end_the_run() {
    let (_, action) = run_to_upload("endpoint = \"https://h\"\n");
    let (report, code) = finish(&action);
    assert!(matches!(report, Report::ConfigInvalid(SettingsError::Invalid(_))));
    assert_eq!(code, 1);
}

#[test]
fn unreadable_settings_end_the_run() {
    let (stage, _) = start(args(&["up", "/tmp/a.png"]), false);
    let (stage, _) = step(stage, Event::FileChecked { present: true });
    let (stage, _) = step(stage, Event::ConfigLocated { data_dir: candidate("/d/S.toml", true), exe_dir: None });
    let (_, action) = step(stage, Event::ConfigRead(Err("permission denied".to_string())));
    let (report, code) = finish(&action);
    assert!(matches!(report, Report::ConfigUnreadable { path, message } if path == "/d/S.toml" && message == "permission denied"));
    assert_eq!(code, 1);
}

#[test]
fn malformed_endpoint_fails_fast() {
    let text = "endpoint = \"ftp://h\"\naccess_key = \"AK\"\nsecret_key = \"SK\"\nbucket = \"b\"\n";
    let (_, action) = run_to_upload(text);
    let (report, code) = finish(&action);
    assert!(matches!(report, Report::EndpointInvalid(_)));
    assert_eq!(code, 1);
}

#[test]
fn uninstall_needs_no_settings_and_succeeds() {
    let (stage, action) = start(args(&["up", "--uninstall"]), true);
    assert!(matches!(action, Action::RemoveRegistration));
    let (_, action) = step(stage, Event::RegistrationRemoved(Ok(())));
    let (report, code) = finish(&action);
    assert!(matches!(report, Report::Unregistered));
    assert_eq!(code, 0);
}

#[test]
fn uninstall_failure_exits_one() {
    let (stage, _) = start(args(&["up", "/UNINSTALL"]), true);
    let (_, action) = step(stage, Event::RegistrationRemoved(Err("locked".to_string())));
    let (report, code) = finish(&action);
    assert!(matches!(report, Report::UnregisterFailed { message } if message == "locked"));
    assert_eq!(code, 1);
}

#[test]
fn event_out_of_order_ends_the_run() {
    let (stage, _) = start(args(&["up", "/tmp/a.png"]), false);
    let (_, action) = step(stage, Event::Acknowledged);
    let (report, code) = finish(&action);
    assert!(matches!(report, Report::OutOfOrder));
    assert_eq!(code, 1);
}

#[test]
fn upper_case_endpoint_is_accepted_and_kept_in_the_url() {
    let text = "endpoint = \"https://S3.AMAZONAWS.COM\"\naccess_key = \"AK\"\nsecret_key = \"SK\"\nbucket = \"b\"\n";
    let (stage, action) = run_to_upload(text);
    assert!(matches!(action, Action::Upload { .. }));
    let (_, action) = step(stage, Event::Uploaded(Ok(())));
    assert!(matches!(&action, Action::CopyToClipboard { url } if url == "https://S3.AMAZONAWS.COM/b/My%20Trip.png"));
    let text = "endpoint = \"HTTPS://MinIO.Example.com:9000/\"\naccess_key = \"AK\"\nsecret_key = \"SK\"\nbucket = \"b\"\n";
    let (_, action) = run_to_upload(text);
    assert!(matches!(action, Action::Upload { .. }));
}

#[test]
fn non_ascii_endpoint_is_refused_before_parsing() {
    let text = "endpoint = \"https://exämple.com\"\naccess_key = \"AK\"\nsecret_key = \"SK\"\nbucket = \"b\"\n";
    let (_, action) = run_to_upload(text);
    let (report, code) = finish(&action);
    assert!(matches!(report, Report::EndpointUnsupported { endpoint } if endpoint == "https://exämple.com"));
    assert_eq!(report.message(), "Invalid endpoint: https://exämple.com (write it in ASCII)");
    assert_eq!(code, 1);
}

#[test]
fn ascii_lowercase_leaves_other_characters() {
    assert_eq!(ascii_lowercase("HTTPS://MinIO.Example.COM:9000"), "https://minio.example.com:9000");
    assert_eq!(ascii_lowercase("ÄbC-z"), "Äbc-z");
    assert_eq!(ascii_lowercase(""), "");
}

#[test]
fn trim_text_cuts_unicode_white_space() {
    assert_eq!(trim_text("\u{2003} a b \u{3000}\r\n"), "a b");
    assert_eq!(trim_text(" \t "), "");
    assert_eq!(trim_text("x"), "x");
}

#[test]
fn empty_field_reaches_the_report() {
    let text = "endpoint = \"https://h\"\naccess_key = \"AK\"\nsecret_key = \"SK\"\nbucket = \"\"\n";
    let (_, action) = run_to_upload(text);
    let (report, code) = finish(&action);
    assert!(matches!(report, Report::ConfigInvalid(SettingsError::EmptyField(k)) if k == "bucket"));
    assert_eq!(code, 1);
}

#[test]
fn key_is_the_file_name() {
    assert_eq!(key_for_path("My Trip.png"), "My Trip.png");
    assert_eq!(key_for_path("/home/me/docs/report.pdf"), "report.pdf");
    assert_eq!(key_for_path(""), "unknown_file");
    assert_eq!(key_for_path(".."), "unknown_file");
    assert_eq!(key_for_path("a//b/c d.txt"), "c d.txt");
    assert_eq!(key_for_path("/x/照片.jpg"), "照片.jpg");
}

#[test]
fn context_menu_command_quotes_both_parts() {
    assert_eq!(context_menu_command("C:\\Tools\\up.exe"), "\"C:\\Tools\\up.exe\" \"%1\"");
}

#[test]
fn url_trims_unicode_white_space() {
    let url = object_url("\u{3000}\thttps://h/\u{a0}\n", "b", "k");
    assert_eq!(url, "https://h/b/k");
}

#[test]
fn report_wording() {
    let r = Report::Uploaded { url: "https://h/b/k".to_string() };
    assert_eq!(r.message(), "上传成功，链接已复制到剪切板:\nhttps://h/b/k");
    let r = Report::FileNotFound { path: "/x".to_string() };
    assert_eq!(r.message(), "File does not exist: /x");
    let r = Report::Usage { program: "up.exe".to_string() };
    assert_eq!(r.message(), "No file path provided.\n\nUsage: Drag a file onto up.exe or use the context menu.");
    let r = Report::CopyFailed { url: "u".to_string(), message: "m".to_string() };
    assert_eq!(r.message(), "上传成功，但复制到剪切板失败: m\nURL: u");
}

#[test]
fn parse_error_wording_carries_the_parser_message() {
    match Settings::new("endpoint = = ]") {
        Err(e) => {
            let text = Report::ConfigInvalid(e).message();
            assert!(text.starts_with("Invalid settings: "));
            assert!(text.len() > "Invalid settings: ".len());
        }
        Ok(_) => panic!("malformed settings accepted"),
    }
}
