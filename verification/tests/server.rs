//! Counters, pipeline and lifecycle behaviour on concrete scenarios.

use lanshare::counters::UsageCounters;
use lanshare::lifecycle::{make_access_url, status, ServerLifecycle};
use lanshare::pipeline::{
    error_response, process_parts, response_json, RequestState, UploadError, UploadPart,
    UploadResponse, DEFAULT_MAX_REQUEST_BYTES,
};

fn part(name: &str, size: u64) -> UploadPart {
    UploadPart { declared_filename: Some(name.to_string()), size }
}

#[test]
fn counters_accumulate_across_requests() {
    let mut c = UsageCounters::new();
    assert_eq!(c.get_received_count(), 0);
    assert_eq!(c.get_total_size(), 0);
    c.record_upload(100);
    c.record_upload(50);
    c.record_upload(0);
    assert_eq!(c.get_received_count(), 3);
    assert_eq!(c.get_total_size(), 150);
}

#[test]
fn counters_saturate_instead_of_wrapping() {
    let mut c = UsageCounters::new();
    c.record_upload(u64::MAX);
    c.record_upload(5);
    assert_eq!(c.get_received_count(), 2);
    assert_eq!(c.get_total_size(), u64::MAX);
}

#[test]
fn single_part_upload_is_stored_and_counted() {
    let mut c = UsageCounters::new();
    let parts = vec![part("report final.PDF", 10)];
    let r = process_parts(Vec::new(), &parts, DEFAULT_MAX_REQUEST_BYTES, &mut c).unwrap();
    assert!(r.success);
    assert_eq!(r.files, vec!["reportfinal.PDF".to_string()]);
    assert_eq!(r.message, "1 files uploaded");
    assert_eq!(c.get_received_count(), 1);
    assert_eq!(c.get_total_size(), 10);
}

#[test]
fn second_upload_of_same_name_gets_suffix() {
    let mut c = UsageCounters::new();
    let first = process_parts(Vec::new(), &vec![part("a.txt", 3)], 1000, &mut c).unwrap();
    assert_eq!(first.files, vec!["a.txt".to_string()]);
    let second = process_parts(first.files.clone(), &vec![part("a.txt", 4)], 1000, &mut c)
        .unwrap();
    assert_eq!(second.files, vec!["a_1.txt".to_string()]);
    assert_eq!(c.get_received_count(), 2);
    assert_eq!(c.get_total_size(), 7);
}

#[test]
fn parts_within_one_request_do_not_collide() {
    let mut c = UsageCounters::new();
    let parts = vec![part("a.txt", 1), part("a.txt", 2), part("a.txt", 3)];
    let r = process_parts(Vec::new(), &parts, 1000, &mut c).unwrap();
    assert_eq!(
        r.files,
        vec!["a.txt".to_string(), "a_1.txt".to_string(), "a_2.txt".to_string()]
    );
    assert_eq!(r.message, "3 files uploaded");
    assert_eq!(c.get_received_count(), 3);
    assert_eq!(c.get_total_size(), 6);
}

#[test]
fn oversize_request_is_rejected_and_not_counted() {
    let mut c = UsageCounters::new();
    let parts = vec![part("big.bin", 1001)];
    let r = process_parts(Vec::new(), &parts, 1000, &mut c);
    match r {
        Err(UploadError::Oversize) => {},
        _ => panic!("expected an oversize rejection"),
    }
    assert_eq!(c.get_received_count(), 0);
    assert_eq!(c.get_total_size(), 0);
}

#[test]
fn oversize_counts_only_earlier_parts() {
    let mut c = UsageCounters::new();
    let parts = vec![part("a.txt", 600), part("b.txt", 600)];
    let r = process_parts(Vec::new(), &parts, 1000, &mut c);
    assert!(matches!(r, Err(UploadError::Oversize)));
    assert_eq!(c.get_received_count(), 1);
    assert_eq!(c.get_total_size(), 600);
}

#[test]
fn request_exactly_at_cap_succeeds() {
    let mut c = UsageCounters::new();
    let parts = vec![part("a.txt", 400), part("b.txt", 600)];
    let r = process_parts(Vec::new(), &parts, 1000, &mut c);
    assert!(r.is_ok());
    assert_eq!(c.get_total_size(), 1000);
}

#[test]
fn undeclared_filename_gets_placeholder() {
    let mut c = UsageCounters::new();
    let parts = vec![UploadPart { declared_filename: None, size: 5 }];
    let r = process_parts(Vec::new(), &parts, 1000, &mut c).unwrap();
    assert_eq!(r.files, vec!["file".to_string()]);
}

#[test]
fn request_state_drives_one_part() {
    let mut c = UsageCounters::new();
    let mut state = RequestState::new(Vec::new(), 100);
    let name = state.begin_part(Some("x y.txt"));
    assert_eq!(name, "xy.txt");
    assert!(state.note_chunk(60).is_ok());
    assert!(state.note_chunk(40).is_ok());
    assert!(matches!(state.note_chunk(1), Err(UploadError::Oversize)));
    state.finish_part(&mut c);
    let r = state.response();
    assert!(r.success);
    assert_eq!(r.files, vec!["xy.txt".to_string()]);
    assert_eq!(c.get_received_count(), 1);
    assert_eq!(c.get_total_size(), 100);
}

#[test]
fn failed_part_is_never_counted() {
    let c = UsageCounters::new();
    let mut state = RequestState::new(Vec::new(), 100);
    let _name = state.begin_part(Some("broken.bin"));
    assert!(state.note_chunk(10).is_ok());
    // The stream breaks here: the part is abandoned, never finished.
    drop(state);
    assert_eq!(c.get_received_count(), 0);
    assert_eq!(c.get_total_size(), 0);
}

#[test]
fn response_json_is_exact() {
    let r = UploadResponse {
        success: true,
        message: "2 files uploaded".to_string(),
        files: vec!["a.txt".to_string(), "b.txt".to_string()],
    };
    assert_eq!(
        response_json(&r),
        "{\"success\":true,\"message\":\"2 files uploaded\",\"files\":[\"a.txt\",\"b.txt\"]}"
    );
}

#[test]
fn response_json_empty_file_list() {
    let r = UploadResponse {
        success: true,
        message: "0 files uploaded".to_string(),
        files: Vec::new(),
    };
    assert_eq!(
        response_json(&r),
        "{\"success\":true,\"message\":\"0 files uploaded\",\"files\":[]}"
    );
}

#[test]
fn response_json_escapes_specials() {
    let r = UploadResponse {
        success: false,
        message: "bad \"name\" \\ here\n".to_string(),
        files: Vec::new(),
    };
    let s = response_json(&r);
    assert_eq!(
        s,
        "{\"success\":false,\"message\":\"bad \\\"name\\\" \\\\ here\\u000a\",\"files\":[]}"
    );
    let v: serde_json::Value = serde_json::from_str(&s).unwrap();
    assert_eq!(v.get("message").unwrap().as_str().unwrap(), "bad \"name\" \\ here\n");
}

#[test]
fn response_json_parses_back() {
    let mut c = UsageCounters::new();
    let parts = vec![part("a b.txt", 4)];
    let resp = process_parts(Vec::new(), &parts, 1000, &mut c).unwrap();
    let s = response_json(&resp);
    let v: serde_json::Value = serde_json::from_str(&s).unwrap();
    assert_eq!(v.get("success").unwrap().as_bool().unwrap(), true);
    assert_eq!(v.get("message").unwrap().as_str().unwrap(), "1 files uploaded");
    let files = v.get("files").unwrap().as_array().unwrap();
    assert_eq!(files.len(), 1);
    assert_eq!(files[0].as_str().unwrap(), "ab.txt");
}

#[test]
fn error_responses_and_statuses() {
    let cases = [
        (UploadError::Directory, "failed to create upload directory", 500),
        (UploadError::Bind, "failed to bind server port", 500),
        (UploadError::MultipartParse, "malformed multipart body", 400),
        (UploadError::Io, "file write failed", 500),
        (UploadError::Oversize, "request body exceeds size limit", 413),
    ];
    for (e, msg, code) in cases {
        assert_eq!(e.message(), msg);
        assert_eq!(e.http_status(), code);
        let r = error_response(&e);
        assert!(!r.success);
        assert_eq!(r.message, msg);
        assert!(r.files.is_empty());
    }
}

#[test]
fn start_replaces_previous_instance() {
    let mut l = ServerLifecycle::new();
    assert!(!l.is_running());
    let first_cancel = l.start_transition(4000);
    assert!(first_cancel.is_none());
    assert!(l.is_running());
    assert_eq!(l.current_port(), Some(4000));
    let second_cancel = l.start_transition(5000);
    let old = second_cancel.expect("the first instance must be handed back");
    assert_eq!(old.port, 4000);
    assert_eq!(l.current_port(), Some(5000));
}

#[test]
fn stop_when_stopped_is_a_noop() {
    let mut l = ServerLifecycle::new();
    assert!(l.stop_transition().is_none());
    assert!(!l.is_running());
    assert!(l.stop_transition().is_none());
}

#[test]
fn stop_after_start_hands_back_the_handle() {
    let mut l = ServerLifecycle::new();
    l.start_transition(4000);
    let h = l.stop_transition().expect("a running instance must be handed back");
    assert_eq!(h.port, 4000);
    assert!(!l.is_running());
    assert!(l.stop_transition().is_none());
}

#[test]
fn status_reads_counters_whatever_the_state() {
    let mut c = UsageCounters::new();
    c.record_upload(42);
    let dir = "/tmp/LocalSend".to_string();
    let s = status(&c, &dir);
    assert_eq!(s.received_count, 1);
    assert_eq!(s.total_size, 42);
    assert_eq!(s.upload_dir, dir);
}

#[test]
fn access_url_has_exact_shape() {
    assert_eq!(make_access_url("192.168.1.5", 8080), "http://192.168.1.5:8080");
    assert_eq!(make_access_url("10.0.0.2", 0), "http://10.0.0.2:0");
}
