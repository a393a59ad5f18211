use mpv_ipc::codec::{decode, encode, encode_command, MpvResponse};
use mpv_ipc::commands::{CmdArg, MpvCommand, MpvCommandResponse, MpvCommandStatus};
use mpv_ipc::events::{EndFileReason, MpvEvent};

#[test]
fn decodes_a_bare_event() {
    let r = decode(b"{\"event\":\"pause\"}\n");
    assert_eq!(r, MpvResponse::Event(MpvEvent::Pause));
    let r = decode(b"{\"event\":\"unpause\"}");
    assert_eq!(r, MpvResponse::Event(MpvEvent::Unpause));
    let r = decode(b"  { \"event\" : \"file-loaded\" }  \n");
    assert_eq!(r, MpvResponse::Event(MpvEvent::FileLoaded));
}

#[test]
fn decodes_the_remaining_bare_events() {
    assert_eq!(
        decode(b"{\"event\":\"playback-restart\"}"),
        MpvResponse::Event(MpvEvent::PlaybackRestart)
    );
    assert_eq!(
        decode(b"{\"event\":\"tracks-changed\"}"),
        MpvResponse::Event(MpvEvent::TracksChanged)
    );
    assert_eq!(
        decode(b"{\"event\":\"chapter-change\"}"),
        MpvResponse::Event(MpvEvent::ChapterChange)
    );
}

#[test]
fn decodes_a_property_change_with_its_raw_value() {
    let r = decode(b"{\"event\":\"property-change\",\"name\":\"volume\",\"data\":50.5}\n");
    assert_eq!(
        r,
        MpvResponse::Event(MpvEvent::PropertyChange {
            name: b"volume".to_vec(),
            data: b"50.5".to_vec(),
        })
    );
}

#[test]
fn decodes_end_file_reasons() {
    let r = decode(b"{\"event\":\"end-file\",\"reason\":\"eof\"}");
    assert_eq!(
        r,
        MpvResponse::Event(MpvEvent::EndFile { reason: EndFileReason::EOF })
    );
    let r = decode(b"{\"event\":\"end-file\",\"reason\":\"quit\"}");
    assert_eq!(
        r,
        MpvResponse::Event(MpvEvent::EndFile { reason: EndFileReason::Quit })
    );
    let r = decode(b"{\"event\":\"end-file\",\"reason\":\"overheated\"}");
    assert_eq!(
        r,
        MpvResponse::Event(MpvEvent::EndFile { reason: EndFileReason::Unknown })
    );
    let r = decode(b"{\"event\":\"end-file\"}");
    assert_eq!(
        r,
        MpvResponse::Event(MpvEvent::EndFile { reason: EndFileReason::Unknown })
    );
}

#[test]
fn decodes_start_file_and_rejects_an_oversized_entry_id() {
    let r = decode(b"{\"event\":\"start-file\",\"playlist_entry_id\":3}");
    assert_eq!(
        r,
        MpvResponse::Event(MpvEvent::StartFile { playlist_entry_id: 3 })
    );
    let r = decode(b"{\"event\":\"start-file\",\"playlist_entry_id\":5000000000}");
    assert_eq!(
        r,
        MpvResponse::Event(MpvEvent::UnknownEvent(b"start-file".to_vec()))
    );
}

#[test]
fn keeps_an_unknown_event_by_name() {
    let r = decode(b"{\"event\":\"seek\"}");
    assert_eq!(r, MpvResponse::Event(MpvEvent::UnknownEvent(b"seek".to_vec())));
}

#[test]
fn unescapes_string_content() {
    let r = decode(b"{\"event\":\"a\\\"b\\\\c\\n\"}");
    assert_eq!(
        r,
        MpvResponse::Event(MpvEvent::UnknownEvent(b"a\"b\\c\n".to_vec()))
    );
}

#[test]
fn four_digit_escapes_name_code_points() {
    // An escaped ASCII letter still names the event.
    let r = decode(b"{\"event\":\"pa\\u0075se\"}");
    assert_eq!(r, MpvResponse::Event(MpvEvent::Pause));
    // A two-byte code point.
    let r = decode(b"{\"event\":\"caf\\u00e9\"}");
    assert_eq!(
        r,
        MpvResponse::Event(MpvEvent::UnknownEvent(
            "café".as_bytes().to_vec()
        ))
    );
    // A surrogate pair names one four-byte code point.
    let r = decode(b"{\"event\":\"\\ud83d\\ude00\"}");
    assert_eq!(
        r,
        MpvResponse::Event(MpvEvent::UnknownEvent("\u{1F600}".as_bytes().to_vec()))
    );
}

#[test]
fn malformed_four_digit_escapes_leave_the_frame_unclassified() {
    for line in [
        &b"{\"event\":\"\\u12\"}"[..],
        b"{\"event\":\"\\u12zz\"}",
        b"{\"event\":\"\\ud83d\"}",
        b"{\"event\":\"\\ud83dx\"}",
        b"{\"event\":\"\\ude00\"}",
        b"{\"event\":\"\\ud83d\\ud83d\"}",
    ] {
        assert_eq!(decode(line), MpvResponse::UnknownResponse(line.to_vec()));
    }
}

#[test]
fn decodes_a_success_reply_with_numeric_data() {
    let r = decode(b"{\"error\":\"success\",\"data\":50,\"request_id\":1}\n");
    assert_eq!(
        r,
        MpvResponse::CommandResponse(MpvCommandResponse {
            error: MpvCommandStatus::Success,
            data: Some(b"50".to_vec()),
            request_id: 1,
        })
    );
}

#[test]
fn decodes_each_reply_status() {
    let r = decode(b"{\"error\":\"error\",\"request_id\":2}");
    assert_eq!(
        r,
        MpvResponse::CommandResponse(MpvCommandResponse {
            error: MpvCommandStatus::Error,
            data: None,
            request_id: 2,
        })
    );
    let r = decode(b"{\"error\":\"invalid parameter\",\"request_id\":3}");
    assert_eq!(
        r,
        MpvResponse::CommandResponse(MpvCommandResponse {
            error: MpvCommandStatus::InvalidParameter,
            data: None,
            request_id: 3,
        })
    );
}

#[test]
fn a_null_payload_counts_as_absent() {
    let r = decode(b"{\"error\":\"success\",\"data\":null,\"request_id\":4}");
    assert_eq!(
        r,
        MpvResponse::CommandResponse(MpvCommandResponse {
            error: MpvCommandStatus::Success,
            data: None,
            request_id: 4,
        })
    );
}

#[test]
fn a_structured_payload_is_kept_raw() {
    let r = decode(b"{\"error\":\"success\",\"data\":{\"x\":[1,2],\"y\":\"z\"},\"request_id\":5}");
    assert_eq!(
        r,
        MpvResponse::CommandResponse(MpvCommandResponse {
            error: MpvCommandStatus::Success,
            data: Some(b"{\"x\":[1,2],\"y\":\"z\"}".to_vec()),
            request_id: 5,
        })
    );
}

#[test]
fn the_event_schema_is_tried_before_the_reply_schema() {
    let r = decode(b"{\"event\":\"pause\",\"error\":\"success\",\"request_id\":9}");
    assert_eq!(r, MpvResponse::Event(MpvEvent::Pause));
}

#[test]
fn the_largest_request_id_fits_and_one_more_does_not() {
    let r = decode(b"{\"error\":\"success\",\"request_id\":18446744073709551615}");
    assert_eq!(
        r,
        MpvResponse::CommandResponse(MpvCommandResponse {
            error: MpvCommandStatus::Success,
            data: None,
            request_id: u64::MAX,
        })
    );
    let line: &[u8] = b"{\"error\":\"success\",\"request_id\":18446744073709551616}";
    assert_eq!(decode(line), MpvResponse::UnknownResponse(line.to_vec()));
}

#[test]
fn frames_matching_neither_schema_are_kept_verbatim() {
    for line in [
        &b""[..],
        b"\n",
        b"{}",
        b"hello \x01 world\n",
        b"{\"error\":\"bogus\",\"request_id\":2}",
        b"{\"error\":\"success\",\"request_id\":01}",
        b"{\"error\":\"success\",\"request_id\":7} trailing",
        b"[1,2,3]",
        b"{\"error\":\"success\",\"request_id\":7",
    ] {
        assert_eq!(decode(line), MpvResponse::UnknownResponse(line.to_vec()));
    }
}

#[test]
fn a_reply_without_a_request_id_is_not_a_reply() {
    let line: &[u8] = b"{\"error\":\"success\",\"data\":50}";
    assert_eq!(decode(line), MpvResponse::UnknownResponse(line.to_vec()));
}

#[test]
fn encodes_the_exact_command_frame() {
    let args = vec![
        CmdArg::Str(b"get_property".to_vec()),
        CmdArg::Str(b"volume".to_vec()),
    ];
    let frame = encode_command(&args, 1);
    assert_eq!(
        frame,
        b"{\"command\":[\"get_property\",\"volume\"],\"request_id\":1,\"async\":true}\n".to_vec()
    );
}

#[test]
fn encodes_numbers_escapes_and_an_empty_argument_vector() {
    let args = vec![
        CmdArg::Str(b"observe_property".to_vec()),
        CmdArg::Int(12),
        CmdArg::Str(b"a\"b\\c\n\x01".to_vec()),
    ];
    let frame = encode_command(&args, 18446744073709551615);
    assert_eq!(
        frame,
        b"{\"command\":[\"observe_property\",12,\"a\\\"b\\\\c\\n\\u0001\"],\"request_id\":18446744073709551615,\"async\":true}\n"
            .to_vec()
    );
    let frame = encode_command(&Vec::new(), 0);
    assert_eq!(
        frame,
        b"{\"command\":[],\"request_id\":0,\"async\":true}\n".to_vec()
    );
}

#[test]
fn an_assembled_command_encodes_like_its_parts() {
    let cmd = MpvCommand {
        command: vec![CmdArg::Str(b"loadfile".to_vec()), CmdArg::Str(b"x.mkv".to_vec())],
        request_id: 6,
    };
    assert_eq!(encode(&cmd), encode_command(&cmd.command, 6));
    assert_eq!(
        encode(&cmd),
        b"{\"command\":[\"loadfile\",\"x.mkv\"],\"request_id\":6,\"async\":true}\n".to_vec()
    );
}
