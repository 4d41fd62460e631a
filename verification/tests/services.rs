use viewcast::accounts::{role_of, token_expiry, TOKEN_LIFETIME};
use viewcast::settings::{listen_address, port_of, storage_upload_url, storage_video_url};
use viewcast::upload::{
    default_blob_name, duration_seconds, upload_field, uploader, video_path, UploadField,
    UploadForm,
};

#[test]
fn a_port_is_read_from_its_digits() {
    assert_eq!(port_of(Some("8080")), Some(8080));
    assert_eq!(port_of(Some("0")), Some(0));
    assert_eq!(port_of(Some("65535")), Some(65535));
    assert_eq!(port_of(Some("+443")), Some(443));
}

#[test]
fn what_is_no_port_number_gives_no_port() {
    assert_eq!(port_of(None), None);
    assert_eq!(port_of(Some("")), None);
    assert_eq!(port_of(Some("65536")), None);
    assert_eq!(port_of(Some("-1")), None);
    assert_eq!(port_of(Some(" 80")), None);
    assert_eq!(port_of(Some("80 ")), None);
    assert_eq!(port_of(Some("http")), None);
    assert_eq!(port_of(Some("8080x")), None);
}

#[test]
fn a_service_listens_on_every_interface() {
    assert_eq!(listen_address(8080), "0.0.0.0:8080");
    assert_eq!(listen_address(0), "0.0.0.0:0");
    assert_eq!(listen_address(65535), "0.0.0.0:65535");
}

#[test]
fn the_storage_urls_carry_host_port_and_path() {
    assert_eq!(
        storage_video_url("localhost", 4000, "movies/a.mp4"),
        "http://localhost:4000/video?movies/a.mp4"
    );
    assert_eq!(storage_video_url("storage", 80, ""), "http://storage:80/video?");
    assert_eq!(storage_upload_url("localhost", 4000), "http://localhost:4000/store");
}

#[test]
fn upload_fields_are_told_apart_by_name() {
    assert_eq!(upload_field("file"), UploadField::File);
    assert_eq!(upload_field("filename"), UploadField::Filename);
    assert_eq!(upload_field("duration"), UploadField::Duration);
    assert_eq!(upload_field("created_at"), UploadField::CreatedAt);
    assert_eq!(upload_field("user_id"), UploadField::UserId);
    assert_eq!(upload_field(""), UploadField::Other);
    assert_eq!(upload_field("File"), UploadField::Other);
    assert_eq!(upload_field("file "), UploadField::Other);
    assert_eq!(upload_field("title"), UploadField::Other);
}

#[test]
fn a_form_takes_its_text_fields() {
    let mut form = UploadForm::new();
    assert_eq!(
        form,
        UploadForm { filename: None, duration: None, created_at: None, user_id: None }
    );
    form.set(UploadField::Filename, "a.mp4".to_string());
    form.set(UploadField::Duration, "12".to_string());
    form.set(UploadField::CreatedAt, "2024-01-02T03:04:05Z".to_string());
    form.set(UploadField::UserId, "u1".to_string());
    form.set(UploadField::Other, "ignored".to_string());
    form.set(UploadField::File, "ignored".to_string());
    assert_eq!(
        form,
        UploadForm {
            filename: Some("a.mp4".to_string()),
            duration: Some("12".to_string()),
            created_at: Some("2024-01-02T03:04:05Z".to_string()),
            user_id: Some("u1".to_string()),
        }
    );
    form.set(UploadField::Filename, "b.mp4".to_string());
    assert_eq!(form.filename, Some("b.mp4".to_string()));
    assert_eq!(form.duration, Some("12".to_string()));
}

#[test]
fn a_duration_is_read_or_zero() {
    assert_eq!(duration_seconds(Some("12")), 12);
    assert_eq!(duration_seconds(Some("-3")), -3);
    assert_eq!(duration_seconds(Some("9223372036854775807")), i64::MAX);
    assert_eq!(duration_seconds(Some("9223372036854775808")), 0);
    assert_eq!(duration_seconds(Some("1.5")), 0);
    assert_eq!(duration_seconds(Some("")), 0);
    assert_eq!(duration_seconds(Some("twelve")), 0);
    assert_eq!(duration_seconds(None), 0);
}

#[test]
fn an_upload_without_a_user_is_anonymous() {
    assert_eq!(uploader(Some("u1".to_string())), "u1");
    assert_eq!(uploader(Some(String::new())), "");
    assert_eq!(uploader(None), "anonymous");
}

#[test]
fn a_video_is_stored_under_its_file_name_or_a_fresh_one() {
    assert_eq!(video_path(Some("a.mp4".to_string()), "id"), "a.mp4");
    assert_eq!(video_path(None, "0b5c"), "0b5c.mp4");
    assert_eq!(default_blob_name(), "video.mp4");
}

#[test]
fn a_token_expires_an_hour_after_it_is_issued() {
    assert_eq!(TOKEN_LIFETIME, 3600);
    assert_eq!(token_expiry(0), Some(3600));
    assert_eq!(token_expiry(1_700_000_000), Some(1_700_003_600));
    assert_eq!(token_expiry(-3600), Some(0));
    assert_eq!(token_expiry(-3601), None);
    assert_eq!(token_expiry(i64::MAX - 3600), Some(i64::MAX as u64));
    assert_eq!(token_expiry(i64::MAX - 3599), None);
    assert_eq!(token_expiry(i64::MIN), None);
}

#[test]
fn an_account_without_a_role_is_a_user() {
    assert_eq!(role_of(Some("admin".to_string())), "admin");
    assert_eq!(role_of(None), "user");
}

#[test]
fn test_get_port() {
    assert_eq!(port_of(Some("8080")), Some(8080));
}

#[test]
fn a_port_may_have_a_plus_and_leading_zeros_and_nothing_else() {
    assert_eq!(port_of(Some("0008080")), Some(8080));
    assert_eq!(port_of(Some("+0")), Some(0));
    assert_eq!(port_of(Some("+")), None);
    assert_eq!(port_of(Some("-")), None);
    assert_eq!(port_of(Some("-0")), None);
    assert_eq!(port_of(Some("++80")), None);
    assert_eq!(port_of(Some("8_080")), None);
    assert_eq!(port_of(Some("80.0")), None);
    assert_eq!(port_of(Some("0x50")), None);
    assert_eq!(port_of(Some("\u{664}\u{662}")), None);
    assert_eq!(port_of(Some("00000000000000000000000000000000065535")), Some(65535));
    assert_eq!(port_of(Some("00000000000000000000000000000000065536")), None);
}

#[test]
fn a_duration_may_have_a_sign_and_leading_zeros_and_nothing_else() {
    assert_eq!(duration_seconds(Some("+7")), 7);
    assert_eq!(duration_seconds(Some("-0")), 0);
    assert_eq!(duration_seconds(Some("007")), 7);
    assert_eq!(duration_seconds(Some("-007")), -7);
    assert_eq!(duration_seconds(Some("-9223372036854775808")), i64::MIN);
    assert_eq!(duration_seconds(Some("-9223372036854775809")), 0);
    assert_eq!(duration_seconds(Some("+9223372036854775807")), i64::MAX);
    assert_eq!(duration_seconds(Some("+")), 0);
    assert_eq!(duration_seconds(Some("-")), 0);
    assert_eq!(duration_seconds(Some("+-5")), 0);
    assert_eq!(duration_seconds(Some("--5")), 0);
    assert_eq!(duration_seconds(Some(" 5")), 0);
    assert_eq!(duration_seconds(Some("5 ")), 0);
    assert_eq!(duration_seconds(Some("5s")), 0);
}

#[test]
fn a_written_port_reads_back() {
    for port in [0u16, 7, 80, 8080, 65535] {
        assert_eq!(port_of(Some(&viewcast::names::decimal_text(port as u64))), Some(port));
    }
}
