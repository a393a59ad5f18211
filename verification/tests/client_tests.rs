use mpv_ipc::client::{Client, DispatchAction};
use mpv_ipc::codec::MpvResponse;
use mpv_ipc::commands::{CmdArg, MpvCommandResponse, MpvCommandStatus};
use mpv_ipc::events::MpvEvent;
use mpv_ipc::pending::PendingTable;

fn get_property_args(name: &[u8]) -> Vec<CmdArg> {
    vec![CmdArg::Str(b"get_property".to_vec()), CmdArg::Str(name.to_vec())]
}

#[test]
fn a_command_round_trip_resolves_its_own_caller() {
    let mut client = Client::<u32>::new();
    let (id, frame) = client.begin_command(&get_property_args(b"volume"), 77);
    assert_eq!(id, 1);
    assert_eq!(
        frame,
        b"{\"command\":[\"get_property\",\"volume\"],\"request_id\":1,\"async\":true}\n".to_vec()
    );
    assert_eq!(client.pending_count(), 1);

    let action = client.on_frame(b"{\"error\":\"success\",\"data\":50,\"request_id\":1}\n");
    assert_eq!(
        action,
        DispatchAction::Fulfill(
            77,
            MpvCommandResponse {
                error: MpvCommandStatus::Success,
                data: Some(b"50".to_vec()),
                request_id: 1,
            }
        )
    );
    assert_eq!(client.pending_count(), 0);
}

#[test]
fn replies_arriving_in_reverse_order_find_their_own_callers() {
    let mut client = Client::<u32>::new();
    let mut last_id = 0;
    for marker in 101..=108u32 {
        let (id, _frame) = client.begin_command(&get_property_args(b"volume"), marker);
        last_id = id;
    }
    assert_eq!(last_id, 8);
    assert_eq!(client.pending_count(), 8);

    let action = client.on_frame(b"{\"error\":\"success\",\"request_id\":8}");
    assert_eq!(
        action,
        DispatchAction::Fulfill(
            108,
            MpvCommandResponse {
                error: MpvCommandStatus::Success,
                data: None,
                request_id: 8,
            }
        )
    );
    let action = client.on_frame(b"{\"error\":\"success\",\"request_id\":7}");
    assert_eq!(
        action,
        DispatchAction::Fulfill(
            107,
            MpvCommandResponse {
                error: MpvCommandStatus::Success,
                data: None,
                request_id: 7,
            }
        )
    );
    assert_eq!(client.pending_count(), 6);
}

#[test]
fn ids_grow_past_every_pending_request() {
    let mut client = Client::<u32>::new();
    let (first, _) = client.begin_command(&get_property_args(b"volume"), 1);
    let (second, _) = client.begin_command(&get_property_args(b"duration"), 2);
    let (third, _) = client.begin_command(&get_property_args(b"media-title"), 3);
    assert!(first < second && second < third);

    // Releasing an entry does not hand its id back out while higher ones
    // are still pending.
    client.on_frame(b"{\"error\":\"success\",\"request_id\":2}");
    let (fourth, _) = client.begin_command(&get_property_args(b"volume"), 4);
    assert_eq!(fourth, 4);
}

#[test]
fn a_reply_with_an_unknown_id_is_dropped_and_resolves_nothing() {
    let mut client = Client::<u32>::new();
    let (_, _) = client.begin_command(&get_property_args(b"volume"), 5);
    let action = client.on_frame(b"{\"error\":\"success\",\"request_id\":999}");
    assert_eq!(action, DispatchAction::Ignore);
    assert_eq!(client.pending_count(), 1);
}

#[test]
fn an_event_goes_to_the_sink_and_touches_no_pending_request() {
    let mut client = Client::<u32>::new();
    let (_, _) = client.begin_command(&get_property_args(b"volume"), 5);
    let action = client.on_frame(b"{\"event\":\"pause\"}\n");
    assert_eq!(
        action,
        DispatchAction::Publish(MpvResponse::Event(MpvEvent::Pause))
    );
    assert_eq!(client.pending_count(), 1);
}

#[test]
fn an_unparseable_frame_is_published_unmodified() {
    let mut client = Client::<u32>::new();
    let line: &[u8] = b"garbage {]{ frame\n";
    let action = client.on_frame(line);
    assert_eq!(
        action,
        DispatchAction::Publish(MpvResponse::UnknownResponse(line.to_vec()))
    );
}

#[test]
fn a_released_request_no_longer_takes_replies() {
    let mut client = Client::<u32>::new();
    let (id, _) = client.begin_command(&get_property_args(b"volume"), 9);
    assert!(client.release(id));
    assert!(!client.release(id));
    assert_eq!(client.pending_count(), 0);
    let action = client.on_frame(b"{\"error\":\"success\",\"request_id\":1}");
    assert_eq!(action, DispatchAction::Ignore);
}

#[test]
fn the_table_hands_each_handle_out_exactly_once() {
    let mut table = PendingTable::<&'static str>::new();
    let a = table.register("first");
    let b = table.register("second");
    assert_ne!(a, b);
    assert_eq!(table.size(), 2);
    assert!(table.contains(a));
    assert_eq!(table.fulfill(b), Some("second"));
    assert_eq!(table.fulfill(b), None);
    assert_eq!(table.fulfill(a), Some("first"));
    assert_eq!(table.size(), 0);
}
