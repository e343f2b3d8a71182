//! The two commands, run over a port.
use vstd::prelude::*;
use vstd::utf8::{encode_utf8, valid_utf8};

use crate::frame::{upload_parts, NAME_FIELD_LEN};
use crate::outcome::{UploadError, UploadResult};
use crate::port::{error_kind, invalid_data, receive, send_all};
use crate::reply::{lemma_scan_push, scan, window_after, ReplyScanner, WINDOW_LEN};
use crate::text::{all_ascii, is_utf8, lemma_ascii_is_utf8, lemma_bad_lead_not_utf8};

verus! {

/// Number of bytes read in answer to the probe.
pub const PROBE_REPLY_LEN: usize = 18;

/// `found startup seq!`, the answer of a legacy device to the probe.
pub open spec fn legacy_reply() -> Seq<u8> {
    seq![
        102u8, 111, 117, 110, 100, 32, 115, 116, 97, 114, 116, 117, 112, 32, 115, 101, 113, 33,
    ]
}

/// What a probe reply tells: nothing if it is not text; else whether it is
/// the legacy answer.
pub open spec fn probe_verdict_of(reply: Seq<u8>) -> Option<bool> {
    if valid_utf8(reply) {
        Some(reply == legacy_reply())
    } else {
        None
    }
}

/// Of probe replies of the buffer's length: the legacy answer makes the
/// device legacy, any other ASCII text does not, and bytes that cannot
/// start UTF-8 text are no answer at all.
pub proof fn lemma_probe_replies(reply: Seq<u8>)
    requires
        reply.len() == PROBE_REPLY_LEN,
    ensures
        reply == legacy_reply() ==> probe_verdict_of(reply) == Some(true),
        all_ascii(reply) && reply != legacy_reply() ==> probe_verdict_of(reply) == Some(false),
        reply[0] >= 0xf8 ==> probe_verdict_of(reply) is None,
{
    if all_ascii(reply) {
        lemma_ascii_is_utf8(reply);
    }
    if reply == legacy_reply() {
        assert(all_ascii(legacy_reply()));
        lemma_ascii_is_utf8(reply);
    }
    if reply[0] >= 0xf8 {
        lemma_bad_lead_not_utf8(reply);
    }
}

/// Reads a probe reply: `None` if it is not UTF-8 text, else whether it is
/// exactly `found startup seq!`.
pub fn probe_verdict(reply: &[u8]) -> (r: Option<bool>)
    ensures
        r == probe_verdict_of(reply@),
{
    if !is_utf8(reply) {
        return None;
    }
    let expected: [u8; 18] = [
        102, 111, 117, 110, 100, 32, 115, 116, 97, 114, 116, 117, 112, 32, 115, 101, 113, 33,
    ];
    assert(expected@ =~= legacy_reply());
    if reply.len() != expected.len() {
        assert(reply@.len() != legacy_reply().len());
        return Some(false);
    }
    let mut i: usize = 0;
    while i < reply.len()
        invariant
            reply@.len() == expected@.len(),
            expected@ == legacy_reply(),
            valid_utf8(reply@),
            forall|k: int| 0 <= k < i ==> reply@[k] == expected@[k],
        decreases reply@.len() - i,
    {
        if reply[i] != expected[i] {
            assert(reply@[i as int] != legacy_reply()[i as int]);
            return Some(false);
        }
        i = i + 1;
    }
    assert(reply@ =~= expected@);
    Some(true)
}

/// The bytes that ask a device whether it runs a legacy version.
pub fn startup_sequence() -> (r: [u8; 5])
    ensures
        r@ == seq![0u8, 1, 2, 3, 4],
{
    let r: [u8; 5] = [0, 1, 2, 3, 4];
    assert(r@ =~= seq![0u8, 1, 2, 3, 4]);
    r
}

/// The buffer that the probe reply is read into: 18 zero bytes.
pub fn probe_buffer() -> (r: Vec<u8>)
    ensures
        r@ == Seq::new(PROBE_REPLY_LEN as nat, |i: int| 0u8),
{
    let r: Vec<u8> = vec![0u8; PROBE_REPLY_LEN];
    assert(r@ =~= Seq::new(PROBE_REPLY_LEN as nat, |i: int| 0u8));
    r
}

/// The probe's result from the outcome of its one read and the buffer that
/// read filled: an error of the read comes back as it is, whatever count it
/// reported the buffer is read as a whole, and a buffer that is not text
/// gives an error of kind `InvalidData`.
pub fn probe_outcome(read: Result<usize, std::io::Error>, reply: &[u8]) -> (r: Result<
    bool,
    std::io::Error,
>)
    ensures
        read matches Err(e) ==> r == Err::<bool, std::io::Error>(e),
        read is Ok ==> (forall|legacy: bool|
            r == Ok::<bool, std::io::Error>(legacy) <==> probe_verdict_of(reply@) == Some(legacy)),
        read is Ok ==> (r is Err <==> probe_verdict_of(reply@) is None),
        read is Ok && probe_verdict_of(reply@) is None ==> (r matches Err(e) && error_kind(e)
            == std::io::ErrorKind::InvalidData),
{
    match read {
        Err(e) => Err(e),
        Ok(_) => match probe_verdict(reply) {
            Some(legacy) => Ok(legacy),
            None => Err(invalid_data()),
        },
    }
}

/// Checks whether the device runs a legacy version of Spade.
///
/// Sends the bytes `[0, 1, 2, 3, 4]`, then makes one read into an 18-byte
/// buffer, whatever number of bytes it delivers. The answer is `true` when
/// the buffer reads `found startup seq!`, `false` for any other text. A
/// buffer that is not UTF-8 gives an error of kind `InvalidData`; an error
/// of the port is handed back as it came. The bytes sent come from
/// `startup_sequence`, the buffer from `probe_buffer`, and the result is
/// `probe_outcome` of the read.
pub fn is_running_legacy<P: std::io::Read + std::io::Write>(io: &mut P) -> (r: Result<
    bool,
    std::io::Error,
>)
    ensures
        r matches Ok(legacy) ==> exists|reply: Seq<u8>|
            reply.len() == PROBE_REPLY_LEN && #[trigger] probe_verdict_of(reply) == Some(legacy),
{
    let startup = startup_sequence();
    match send_all(io, startup.as_slice()) {
        Ok(()) => {},
        Err(e) => {
            return Err(e);
        },
    }
    let mut reply = probe_buffer();
    let read = receive(io, &mut reply);
    let r = probe_outcome(read, reply.as_slice());
    assert(r matches Ok(legacy) ==> probe_verdict_of(reply@) == Some(legacy));
    r
}

/// How one write of an upload went: a port error ends the upload with
/// `IOError`.
pub fn check_sent(sent: Result<(), std::io::Error>) -> (r: Result<(), UploadError>)
    ensures
        sent is Ok ==> r is Ok,
        sent is Err ==> r == Err::<(), UploadError>(UploadError::IOError),
{
    match sent {
        Ok(()) => Ok(()),
        Err(e) => Err(UploadError::from(e)),
    }
}

/// Length in bytes of the UTF-8 encoding of `s`.
pub open spec fn byte_len(s: Seq<char>) -> nat {
    encode_utf8(s).len()
}

/// Uploads the program `game` under `name` to the device.
///
/// Checks the name (at most 100 bytes) and the program's length (it must
/// fit in 32 bits) before anything is sent. Then writes `UPLOAD`, the name
/// padded with zero bytes to 100, the program's length as four
/// little-endian bytes, and the program, each by a write of its own. The
/// reply is then read one byte at a time into an 11-byte window until the
/// window shows `ALL_GOOD`, `OO_FLASH` or `OO_METADATA`; a read of zero
/// bytes ends it with `NoResponse`, as does a reply of `u64::MAX` bytes
/// that never showed an answer. Errors of the port give `IOError`. Each
/// write goes through `check_sent` and each read through
/// `ReplyScanner::on_read`, whose answer is the first one that `scan` finds
/// in the bytes read so far.
pub fn upload_game<P: std::io::Read + std::io::Write>(
    io: &mut P,
    name: &String,
    game: &String,
) -> (r: Result<UploadResult, UploadError>)
    ensures
        (r == Err::<UploadResult, UploadError>(UploadError::InvalidName)) <==> byte_len(name@)
            > NAME_FIELD_LEN,
        (r == Err::<UploadResult, UploadError>(UploadError::FailedConversion)) <==> (byte_len(
            name@,
        ) <= NAME_FIELD_LEN && byte_len(game@) > u32::MAX),
        r == Err::<UploadResult, UploadError>(UploadError::InvalidName) || r == Err::<
            UploadResult,
            UploadError,
        >(UploadError::FailedConversion) ==> *final(io) == *old(io),
{
    let name_bytes = name.as_str().as_bytes();
    let game_bytes = game.as_str().as_bytes();
    assert(name_bytes@ == encode_utf8(name@));
    assert(game_bytes@ == encode_utf8(game@));
    let parts = match upload_parts(name_bytes, game_bytes) {
        Ok(parts) => parts,
        Err(e) => {
            return Err(e);
        },
    };
    let mut i: usize = 0;
    while i < parts.len()
        invariant
            i <= parts@.len(),
            name_bytes@ == encode_utf8(name@),
            game_bytes@ == encode_utf8(game@),
            name_bytes@.len() <= NAME_FIELD_LEN,
            game_bytes@.len() <= u32::MAX,
        decreases parts@.len() - i,
    {
        match check_sent(send_all(io, parts[i].as_slice())) {
            Ok(()) => {},
            Err(e) => {
                return Err(e);
            },
        }
        i = i + 1;
    }
    let mut scanner = ReplyScanner::new();
    let ghost initial = scanner@;
    let ghost seen: Seq<u8> = Seq::empty();
    assert(window_after(initial, seen) =~= initial);
    let mut slot: Vec<u8> = vec![0u8];
    let mut received: u64 = 0;
    while received < u64::MAX
        invariant
            slot@.len() == 1,
            name_bytes@ == encode_utf8(name@),
            game_bytes@ == encode_utf8(game@),
            name_bytes@.len() <= NAME_FIELD_LEN,
            game_bytes@.len() <= u32::MAX,
            initial.len() == WINDOW_LEN,
            scanner@ == window_after(initial, seen),
            scan(initial, seen) is None,
        decreases u64::MAX - received,
    {
        let read = receive(io, &mut slot);
        let byte = slot[0];
        let ghost before = scanner@;
        let step = scanner.on_read(read, byte);
        proof {
            lemma_scan_push(initial, seen, byte);
        }
        match step {
            Some(Ok(answer)) => {
                assert(scan(initial, seen.push(byte)) == Some(answer));
                return Ok(answer);
            },
            Some(Err(e)) => {
                return Err(e);
            },
            None => {},
        }
        proof {
            seen = seen.push(byte);
        }
        received = received + 1;
    }
    Err(UploadError::NoResponse)
}

} // verus!
