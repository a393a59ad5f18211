use vstd::prelude::*;

use crate::commands::{
    args_view, ArgV, CmdArg, MpvCommand, MpvCommandResponse, MpvCommandStatus, RespV,
};
use crate::events::{EndFileReason, EventV, MpvEvent};
use crate::json::{
    fields_view, frame_fields, spec_frame_fields, FieldV, FieldVal, JsonScalar, TopField,
    BACKSLASH, COMMA, QUOTE,
};

verus! {

use vstd::string::StringSliceAdditionalSpecFns;

/// One inbound frame, classified. A frame that matches neither the event
/// schema nor the reply schema is kept verbatim.
#[derive(Debug, PartialEq, Eq)]
pub enum MpvResponse {
    Event(MpvEvent),
    CommandResponse(MpvCommandResponse),
    UnknownResponse(Vec<u8>),
}

/// The mathematical image of [`MpvResponse`].
pub enum MsgV {
    Event(EventV),
    CommandResponse(RespV),
    UnknownResponse(Seq<u8>),
}

impl View for MpvResponse {
    type V = MsgV;

    open spec fn view(&self) -> MsgV {
        match self {
            MpvResponse::Event(e) => MsgV::Event(e@),
            MpvResponse::CommandResponse(r) => MsgV::CommandResponse(r@),
            MpvResponse::UnknownResponse(raw) => MsgV::UnknownResponse(raw@),
        }
    }
}

/// The first member bearing `key`, if any.
pub open spec fn spec_field_lookup(fs: Seq<FieldV>, key: Seq<u8>) -> Option<FieldV>
    decreases fs.len(),
{
    if fs.len() == 0 {
        None
    } else if fs[0].key == key {
        Some(fs[0])
    } else {
        spec_field_lookup(fs.drop_first(), key)
    }
}

/// The status named by a reply's `error` member.
pub open spec fn spec_status_of(st: Seq<u8>) -> Option<MpvCommandStatus> {
    if st == "success".spec_bytes() {
        Some(MpvCommandStatus::Success)
    } else if st == "error".spec_bytes() {
        Some(MpvCommandStatus::Error)
    } else if st == "invalid parameter".spec_bytes() {
        Some(MpvCommandStatus::InvalidParameter)
    } else {
        None
    }
}

/// The end-of-file reason named by an event's `reason` member.
pub open spec fn spec_reason_of(r: Seq<u8>) -> EndFileReason {
    if r == "eof".spec_bytes() {
        EndFileReason::EOF
    } else if r == "stop".spec_bytes() {
        EndFileReason::Stop
    } else if r == "quit".spec_bytes() {
        EndFileReason::Quit
    } else if r == "error".spec_bytes() {
        EndFileReason::Error
    } else if r == "redirect".spec_bytes() {
        EndFileReason::Redirect
    } else {
        EndFileReason::Unknown
    }
}

/// The event a frame bearing the tag `name` stands for. A tag that wants
/// companion members keeps them; one this protocol does not know, or whose
/// companion members are missing or ill-typed, is kept by name.
pub open spec fn spec_event_of(name: Seq<u8>, fs: Seq<FieldV>) -> EventV {
    if name == "pause".spec_bytes() {
        EventV::Pause
    } else if name == "unpause".spec_bytes() {
        EventV::Unpause
    } else if name == "playback-restart".spec_bytes() {
        EventV::PlaybackRestart
    } else if name == "file-loaded".spec_bytes() {
        EventV::FileLoaded
    } else if name == "tracks-changed".spec_bytes() {
        EventV::TracksChanged
    } else if name == "chapter-change".spec_bytes() {
        EventV::ChapterChange
    } else if name == "start-file".spec_bytes() {
        match spec_field_lookup(fs, "playlist_entry_id".spec_bytes()) {
            Some(f) => match f.val {
                FieldVal::VUInt(id) => if id <= u32::MAX as u64 {
                    EventV::StartFile { playlist_entry_id: id as u32 }
                } else {
                    EventV::UnknownEvent(name)
                },
                _ => EventV::UnknownEvent(name),
            },
            None => EventV::UnknownEvent(name),
        }
    } else if name == "end-file".spec_bytes() {
        EventV::EndFile {
            reason: match spec_field_lookup(fs, "reason".spec_bytes()) {
                Some(f) => match f.val {
                    FieldVal::VStr(r) => spec_reason_of(r),
                    _ => EndFileReason::Unknown,
                },
                None => EndFileReason::Unknown,
            },
        }
    } else if name == "property-change".spec_bytes() {
        match (
            spec_field_lookup(fs, "name".spec_bytes()),
            spec_field_lookup(fs, "data".spec_bytes()),
        ) {
            (Some(fname), Some(fdata)) => match fname.val {
                FieldVal::VStr(n) => EventV::PropertyChange { name: n, data: fdata.raw },
                _ => EventV::UnknownEvent(name),
            },
            _ => EventV::UnknownEvent(name),
        }
    } else {
        EventV::UnknownEvent(name)
    }
}

/// The payload a reply carries: the raw bytes of its `data` member, absent
/// when the member is absent or `null`.
pub open spec fn spec_data_of(fs: Seq<FieldV>) -> Option<Seq<u8>> {
    match spec_field_lookup(fs, "data".spec_bytes()) {
        Some(f) => if f.raw == "null".spec_bytes() {
            None
        } else {
            Some(f.raw)
        },
        None => None,
    }
}

/// A frame as a reply: it must bear a known status under `error` and a
/// `u64` under `request_id`; anything else leaves the frame unclassified.
pub open spec fn spec_decode_response(s: Seq<u8>, fs: Seq<FieldV>) -> MsgV {
    match (
        spec_field_lookup(fs, "error".spec_bytes()),
        spec_field_lookup(fs, "request_id".spec_bytes()),
    ) {
        (Some(fe), Some(fr)) => match (fe.val, fr.val) {
            (FieldVal::VStr(st), FieldVal::VUInt(id)) => match spec_status_of(st) {
                Some(status) => MsgV::CommandResponse(
                    RespV { error: status, data: spec_data_of(fs), request_id: id },
                ),
                None => MsgV::UnknownResponse(s),
            },
            _ => MsgV::UnknownResponse(s),
        },
        _ => MsgV::UnknownResponse(s),
    }
}

/// Classifies one inbound frame. The event schema is tried first — replies
/// always carry a request identifier while events never do — then the reply
/// schema; a frame matching neither is kept verbatim, so nothing is lost.
pub open spec fn spec_decode(s: Seq<u8>) -> MsgV {
    match spec_frame_fields(s) {
        None => MsgV::UnknownResponse(s),
        Some(fs) => match spec_field_lookup(fs, "event".spec_bytes()) {
            Some(f) => match f.val {
                FieldVal::VStr(name) => MsgV::Event(spec_event_of(name, fs)),
                _ => spec_decode_response(s, fs),
            },
            None => spec_decode_response(s, fs),
        },
    }
}

/// Compares two byte slices for equality.
pub fn bytes_eq(a: &[u8], b: &[u8]) -> (r: bool)
    ensures
        r == (a@ == b@),
{
    if a.len() != b.len() {
        assert(a@.len() != b@.len());
        return false;
    }
    let mut i: usize = 0;
    while i < a.len()
        invariant
            i <= a.len(),
            a.len() == b.len(),
            forall|k: int| 0 <= k < i ==> a@[k] == b@[k],
        decreases a.len() - i,
    {
        if a[i] != b[i] {
            return false;
        }
        i += 1;
    }
    assert(a@ =~= b@);
    true
}

/// The first member bearing `key`, if any.
fn field_lookup<'a>(fs: &'a Vec<TopField>, key: &[u8]) -> (r: Option<&'a TopField>)
    ensures
        match r {
            Some(f) => spec_field_lookup(fields_view(fs@), key@) == Some(f@),
            None => spec_field_lookup(fields_view(fs@), key@) is None,
        },
{
    let ghost full: Seq<FieldV> = fields_view(fs@);
    proof {
        assert(full.skip(0) =~= full);
    }
    let mut i: usize = 0;
    while i < fs.len()
        invariant
            i <= fs@.len(),
            full == fields_view(fs@),
            spec_field_lookup(full, key@) == spec_field_lookup(full.skip(i as int), key@),
        decreases fs@.len() - i,
    {
        assert(full.skip(i as int)[0] == fs@[i as int]@);
        if bytes_eq(fs[i].key.as_slice(), key) {
            return Some(&fs[i]);
        }
        assert(full.skip(i as int).drop_first() =~= full.skip(i + 1));
        i += 1;
    }
    assert(full.skip(i as int) =~= Seq::<FieldV>::empty());
    None
}

/// Copies a byte vector.
fn copy_bytes(v: &Vec<u8>) -> (r: Vec<u8>)
    ensures
        r@ == v@,
{
    vstd::slice::slice_to_vec(v.as_slice())
}

/// The event an inbound frame bearing the string `name` under its event
/// tag stands for.
fn event_of(name: &Vec<u8>, fs: &Vec<TopField>) -> (r: MpvEvent)
    ensures
        r@ == spec_event_of(name@, fields_view(fs@)),
{
    if bytes_eq(name.as_slice(), "pause".as_bytes()) {
        MpvEvent::Pause
    } else if bytes_eq(name.as_slice(), "unpause".as_bytes()) {
        MpvEvent::Unpause
    } else if bytes_eq(name.as_slice(), "playback-restart".as_bytes()) {
        MpvEvent::PlaybackRestart
    } else if bytes_eq(name.as_slice(), "file-loaded".as_bytes()) {
        MpvEvent::FileLoaded
    } else if bytes_eq(name.as_slice(), "tracks-changed".as_bytes()) {
        MpvEvent::TracksChanged
    } else if bytes_eq(name.as_slice(), "chapter-change".as_bytes()) {
        MpvEvent::ChapterChange
    } else if bytes_eq(name.as_slice(), "start-file".as_bytes()) {
        match field_lookup(fs, "playlist_entry_id".as_bytes()) {
            Some(f) => match &f.val {
                JsonScalar::UInt(id) => if *id <= 0xffffffffu64 {
                    MpvEvent::StartFile { playlist_entry_id: *id as u32 }
                } else {
                    MpvEvent::UnknownEvent(copy_bytes(name))
                },
                _ => MpvEvent::UnknownEvent(copy_bytes(name)),
            },
            None => MpvEvent::UnknownEvent(copy_bytes(name)),
        }
    } else if bytes_eq(name.as_slice(), "end-file".as_bytes()) {
        let reason = match field_lookup(fs, "reason".as_bytes()) {
            Some(f) => match &f.val {
                JsonScalar::Str(r) => {
                    if bytes_eq(r.as_slice(), "eof".as_bytes()) {
                        EndFileReason::EOF
                    } else if bytes_eq(r.as_slice(), "stop".as_bytes()) {
                        EndFileReason::Stop
                    } else if bytes_eq(r.as_slice(), "quit".as_bytes()) {
                        EndFileReason::Quit
                    } else if bytes_eq(r.as_slice(), "error".as_bytes()) {
                        EndFileReason::Error
                    } else if bytes_eq(r.as_slice(), "redirect".as_bytes()) {
                        EndFileReason::Redirect
                    } else {
                        EndFileReason::Unknown
                    }
                },
                _ => EndFileReason::Unknown,
            },
            None => EndFileReason::Unknown,
        };
        MpvEvent::EndFile { reason }
    } else if bytes_eq(name.as_slice(), "property-change".as_bytes()) {
        match (field_lookup(fs, "name".as_bytes()), field_lookup(fs, "data".as_bytes())) {
            (Some(fname), Some(fdata)) => match &fname.val {
                JsonScalar::Str(n) => MpvEvent::PropertyChange {
                    name: copy_bytes(n),
                    data: copy_bytes(&fdata.raw),
                },
                _ => MpvEvent::UnknownEvent(copy_bytes(name)),
            },
            _ => MpvEvent::UnknownEvent(copy_bytes(name)),
        }
    } else {
        MpvEvent::UnknownEvent(copy_bytes(name))
    }
}

/// A frame as a reply.
fn decode_response(line: &[u8], fs: &Vec<TopField>) -> (r: MpvResponse)
    ensures
        r@ == spec_decode_response(line@, fields_view(fs@)),
{
    match (field_lookup(fs, "error".as_bytes()), field_lookup(fs, "request_id".as_bytes())) {
        (Some(fe), Some(fr)) => match (&fe.val, &fr.val) {
            (JsonScalar::Str(st), JsonScalar::UInt(id)) => {
                let status = if bytes_eq(st.as_slice(), "success".as_bytes()) {
                    Some(MpvCommandStatus::Success)
                } else if bytes_eq(st.as_slice(), "error".as_bytes()) {
                    Some(MpvCommandStatus::Error)
                } else if bytes_eq(st.as_slice(), "invalid parameter".as_bytes()) {
                    Some(MpvCommandStatus::InvalidParameter)
                } else {
                    None
                };
                match status {
                    Some(status) => {
                        let data = match field_lookup(fs, "data".as_bytes()) {
                            Some(fd) => if bytes_eq(fd.raw.as_slice(), "null".as_bytes()) {
                                None
                            } else {
                                Some(copy_bytes(&fd.raw))
                            },
                            None => None,
                        };
                        MpvResponse::CommandResponse(
                            MpvCommandResponse { error: status, data, request_id: *id },
                        )
                    },
                    None => MpvResponse::UnknownResponse(vstd::slice::slice_to_vec(line)),
                }
            },
            _ => MpvResponse::UnknownResponse(vstd::slice::slice_to_vec(line)),
        },
        _ => MpvResponse::UnknownResponse(vstd::slice::slice_to_vec(line)),
    }
}

/// Classifies one inbound frame: first as an event, then as a reply, and
/// failing both keeps the bytes verbatim. Decoding never discards a frame.
pub fn decode(line: &[u8]) -> (r: MpvResponse)
    ensures
        r@ == spec_decode(line@),
{
    match frame_fields(line) {
        None => MpvResponse::UnknownResponse(vstd::slice::slice_to_vec(line)),
        Some(fs) => match field_lookup(&fs, "event".as_bytes()) {
            Some(f) => match &f.val {
                JsonScalar::Str(name) => MpvResponse::Event(event_of(name, &fs)),
                _ => decode_response(line, &fs),
            },
            None => decode_response(line, &fs),
        },
    }
}

/// The byte naming a hexadecimal digit, lower case.
pub open spec fn spec_hex_digit(n: u8) -> u8 {
    if n < 10 {
        (0x30 + n) as u8
    } else {
        (0x57 + n) as u8
    }
}

/// How one byte of an outgoing string argument is written: the named
/// escapes for the quote, the backslash and the usual control characters,
/// a four-digit escape for the other control bytes, and the byte itself
/// otherwise.
pub open spec fn spec_escape_byte(b: u8) -> Seq<u8> {
    if b == QUOTE {
        seq![BACKSLASH, QUOTE]
    } else if b == BACKSLASH {
        seq![BACKSLASH, BACKSLASH]
    } else if b == 0x08 {
        seq![BACKSLASH, 0x62]
    } else if b == 0x0c {
        seq![BACKSLASH, 0x66]
    } else if b == 0x0a {
        seq![BACKSLASH, 0x6e]
    } else if b == 0x0d {
        seq![BACKSLASH, 0x72]
    } else if b == 0x09 {
        seq![BACKSLASH, 0x74]
    } else if b < 0x20 {
        seq![BACKSLASH, 0x75, 0x30, 0x30, spec_hex_digit(b / 16), spec_hex_digit(b % 16)]
    } else {
        seq![b]
    }
}

/// A string argument's bytes, escaped for the wire.
pub open spec fn spec_escape(s: Seq<u8>) -> Seq<u8>
    decreases s.len(),
{
    if s.len() == 0 {
        Seq::empty()
    } else {
        spec_escape(s.drop_last()) + spec_escape_byte(s.last())
    }
}

/// The decimal digits of `n`, most significant first.
pub open spec fn spec_u64_digits(n: nat) -> Seq<u8>
    decreases n,
{
    if n < 10 {
        seq![(0x30 + n) as u8]
    } else {
        spec_u64_digits(n / 10) + seq![(0x30 + n % 10) as u8]
    }
}

/// One encoded command argument: a quoted, escaped string or a decimal number.
pub open spec fn spec_encode_arg(a: ArgV) -> Seq<u8> {
    match a {
        ArgV::Str(s) => seq![QUOTE] + spec_escape(s) + seq![QUOTE],
        ArgV::Int(n) => spec_u64_digits(n as nat),
    }
}

/// The encoded argument vector, comma-separated.
pub open spec fn spec_args_list(args: Seq<ArgV>) -> Seq<u8>
    decreases args.len(),
{
    if args.len() == 0 {
        Seq::empty()
    } else if args.len() == 1 {
        spec_encode_arg(args[0])
    } else {
        spec_args_list(args.drop_last()) + seq![COMMA] + spec_encode_arg(args.last())
    }
}

/// One outgoing command frame: the argument vector, the request identifier
/// and the asynchronous-execution marker, closed by a newline byte.
pub open spec fn spec_encode_command(args: Seq<ArgV>, id: u64) -> Seq<u8> {
    "{\"command\":[".spec_bytes() + spec_args_list(args) + "],\"request_id\":".spec_bytes()
        + spec_u64_digits(id as nat) + ",\"async\":true}".spec_bytes() + seq![0x0au8]
}

/// Appends a byte slice.
fn push_bytes(out: &mut Vec<u8>, b: &[u8])
    ensures
        final(out)@ == old(out)@ + b@,
{
    let mut i: usize = 0;
    while i < b.len()
        invariant
            i <= b@.len(),
            out@ == old(out)@ + b@.take(i as int),
        decreases b@.len() - i,
    {
        out.push(b[i]);
        proof {
            assert(b@.take(i + 1) =~= b@.take(i as int).push(b@[i as int]));
        }
        i += 1;
    }
    assert(b@.take(b@.len() as int) =~= b@);
}

/// Appends one string argument's bytes, escaped.
fn escape_into(out: &mut Vec<u8>, s: &[u8])
    ensures
        final(out)@ == old(out)@ + spec_escape(s@),
{
    let mut i: usize = 0;
    while i < s.len()
        invariant
            i <= s@.len(),
            out@ == old(out)@ + spec_escape(s@.take(i as int)),
        decreases s@.len() - i,
    {
        let b = s[i];
        if b == QUOTE {
            out.push(BACKSLASH);
            out.push(QUOTE);
        } else if b == BACKSLASH {
            out.push(BACKSLASH);
            out.push(BACKSLASH);
        } else if b == 0x08 {
            out.push(BACKSLASH);
            out.push(0x62);
        } else if b == 0x0c {
            out.push(BACKSLASH);
            out.push(0x66);
        } else if b == 0x0a {
            out.push(BACKSLASH);
            out.push(0x6e);
        } else if b == 0x0d {
            out.push(BACKSLASH);
            out.push(0x72);
        } else if b == 0x09 {
            out.push(BACKSLASH);
            out.push(0x74);
        } else if b < 0x20 {
            out.push(BACKSLASH);
            out.push(0x75);
            out.push(0x30);
            out.push(0x30);
            out.push(if b / 16 < 10 {
                0x30 + b / 16
            } else {
                0x57 + b / 16
            });
            out.push(if b % 16 < 10 {
                0x30 + b % 16
            } else {
                0x57 + b % 16
            });
        } else {
            out.push(b);
        }
        proof {
            assert(s@.take(i + 1).drop_last() =~= s@.take(i as int));
            assert(s@.take(i + 1).last() == s@[i as int]);
        }
        i += 1;
    }
    assert(s@.take(s@.len() as int) =~= s@);
}

/// The decimal digits of `n`, most significant first.
fn u64_digits(n: u64) -> (r: Vec<u8>)
    ensures
        r@ == spec_u64_digits(n as nat),
    decreases n,
{
    if n < 10 {
        let mut one: Vec<u8> = Vec::new();
        one.push(0x30 + (n as u8));
        proof {
            assert(one@ =~= seq![(0x30 + n) as u8]);
        }
        one
    } else {
        let mut digits = u64_digits(n / 10);
        digits.push(0x30 + ((n % 10) as u8));
        proof {
            assert(digits@ =~= spec_u64_digits((n / 10) as nat) + seq![(0x30 + n % 10) as u8]);
        }
        digits
    }
}

/// Appends one encoded argument.
fn encode_arg_into(out: &mut Vec<u8>, a: &CmdArg)
    ensures
        final(out)@ == old(out)@ + spec_encode_arg(a@),
{
    match a {
        CmdArg::Str(s) => {
            out.push(QUOTE);
            escape_into(out, s.as_slice());
            out.push(QUOTE);
            assert(out@ =~= old(out)@ + (seq![QUOTE] + spec_escape(s@) + seq![QUOTE]));
        },
        CmdArg::Int(n) => {
            let digits = u64_digits(*n);
            push_bytes(out, digits.as_slice());
        },
    }
}

/// Encodes one outgoing command frame carrying `args` under the request
/// identifier `id`: the exact line the wire sees, newline included.
pub fn encode_command(args: &Vec<CmdArg>, id: u64) -> (r: Vec<u8>)
    ensures
        r@ == spec_encode_command(args_view(args@), id),
{
    let ghost av: Seq<ArgV> = args_view(args@);
    let mut out: Vec<u8> = Vec::new();
    push_bytes(&mut out, "{\"command\":[".as_bytes());
    let mut j: usize = 0;
    while j < args.len()
        invariant
            j <= args@.len(),
            av == args_view(args@),
            out@ == "{\"command\":[".spec_bytes() + spec_args_list(av.take(j as int)),
        decreases args@.len() - j,
    {
        if j > 0 {
            out.push(COMMA);
        }
        encode_arg_into(&mut out, &args[j]);
        proof {
            assert(av.take(j + 1).drop_last() =~= av.take(j as int));
            assert(av.take(j + 1).last() == av[j as int]);
            assert(av[j as int] == args@[j as int]@);
            if j == 0 {
                assert(av.take(1) =~= seq![av[0]]);
                assert(out@ =~= "{\"command\":[".spec_bytes() + spec_args_list(av.take(1)));
            }
        }
        j += 1;
    }
    assert(av.take(av.len() as int) =~= av);
    push_bytes(&mut out, "],\"request_id\":".as_bytes());
    let digits = u64_digits(id);
    push_bytes(&mut out, digits.as_slice());
    push_bytes(&mut out, ",\"async\":true}".as_bytes());
    out.push(0x0a);
    proof {
        assert(out@ =~= spec_encode_command(av, id));
    }
    out
}

/// Encodes one assembled command.
pub fn encode(cmd: &MpvCommand) -> (r: Vec<u8>)
    ensures
        r@ == spec_encode_command(args_view(cmd.command@), cmd.request_id),
{
    encode_command(&cmd.command, cmd.request_id)
}

} // verus!
