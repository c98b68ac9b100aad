//! The control stream (port 50001): login, authentication, and the request that opens the serial
//! stream.
//!
//! Times are nanoseconds on the caller's monotonic clock.

use vstd::prelude::*;

use crate::rsba1::passcode;
use crate::rsba1::passcode::passcode;
use crate::rsba1::random::random_byte;
use crate::rsba1::stream::StreamCommon;
use crate::rsba1::stream::StreamView;
use crate::rsba1::wire;

verus! {

pub const CONTROL_PORT: u16 = 50001;

pub const SERIAL_PORT: u16 = 50002;

pub const AUDIO_PORT: u16 = 50003;

/// Audio sample rate announced to the radio, in both directions.
pub const AUDIO_SAMPLE_RATE: u16 = 48000;

/// Length of the transmit buffer announced to the radio, in milliseconds.
pub const TX_SEQ_BUF_MS: u16 = 300;

/// Interval between renewals of the authentication: 60 s.
pub const REAUTH_INTERVAL: u64 = 60_000_000_000;

/// How long the opening of the serial stream is waited for: 8 s.
pub const READY_TIMEOUT: u64 = 8_000_000_000;

/// Number of the first ping on the control stream.
pub const CONTROL_FIRST_PING: u16 = 2;

/// Authentication packet: request of a first token.
pub const AUTH_FIRST: u8 = 0x02;

/// Authentication packet: renewal of the token.
pub const AUTH_RENEW: u8 = 0x05;

/// Authentication packet: end of the session.
pub const AUTH_END: u8 = 0x01;

/// The control stream with its credentials.
pub struct ControlStream {
    pub common: StreamCommon,
    /// Counter written inside the login and authentication packets.
    pub auth_inner_seq: u16,
    /// Token that the radio gave at login.
    pub auth_id: [u8; 6],
    pub username: String,
    pub password: String,
}

/// What a `ControlStream` stands for.
#[verifier::ext_equal]
pub struct ControlView {
    pub common: StreamView,
    pub auth_inner_seq: u16,
    pub auth_id: Seq<u8>,
    pub username: Seq<char>,
    pub password: Seq<char>,
}

impl View for ControlStream {
    type V = ControlView;

    open spec fn view(&self) -> ControlView {
        ControlView {
            common: self.common@,
            auth_inner_seq: self.auth_inner_seq,
            auth_id: self.auth_id@,
            username: self.username@,
            password: self.password@,
        }
    }
}

/// The encoding of a user name or of a password.
pub open spec fn passcode_of(s: Seq<char>) -> Seq<u8> {
    passcode::encoded(vstd::utf8::encode_utf8(s))
}

impl ControlView {
    /// A control stream that has not logged in.
    pub open spec fn created(
        common: StreamView,
        username: Seq<char>,
        password: Seq<char>,
    ) -> ControlView {
        ControlView { common, auth_inner_seq: 0, auth_id: wire::zeros(6), username, password }
    }

    pub open spec fn wf(self) -> bool {
        self.common.wf()
    }

    /// The login packet (128 bytes).
    pub open spec fn login(self, start_id: Seq<u8>) -> Seq<u8> {
        self.common.header(128, 0x00, 0) + seq![
            0x00u8,
            0x00,
            0x00,
            0x70,
            0x01,
            0x00,
            0x00,
            (self.auth_inner_seq % 256) as u8,
            (self.auth_inner_seq / 256) as u8,
            0x00,
            start_id[0],
            start_id[1],
            0x00,
            0x00,
            0x00,
            0x00,
        ] + wire::zeros(32) + passcode_of(self.username) + passcode_of(self.password) + seq![
            0x69u8,
            0x63,
            0x6f,
            0x6d,
            0x2d,
            0x70,
            0x63,
            0x00,
        ] + wire::zeros(24)
    }

    /// The authentication packet (64 bytes).
    pub open spec fn auth(self, magic: u8) -> Seq<u8> {
        self.common.header(64, 0x00, 0) + seq![
            0x00u8,
            0x00,
            0x00,
            0x30,
            0x01,
            magic,
            0x00,
            (self.auth_inner_seq % 256) as u8,
            (self.auth_inner_seq / 256) as u8,
            0x00,
        ] + self.auth_id + wire::zeros(32)
    }

    /// The packet that asks for the serial and audio streams (144 bytes).
    pub open spec fn serial_audio(self, a8: Seq<u8>) -> Seq<u8> {
        self.common.header(144, 0x00, 0) + seq![
            0x00u8,
            0x00,
            0x00,
            0x80,
            0x01,
            0x03,
            0x00,
            (self.auth_inner_seq % 256) as u8,
            (self.auth_inner_seq / 256) as u8,
            0x00,
        ] + self.auth_id + a8 + wire::zeros(16) + seq![
            0x49u8,
            0x43,
            0x2d,
            0x37,
            0x30,
            0x35,
            0x00,
            0x00,
        ] + wire::zeros(24) + passcode_of(self.username) + seq![0x01u8, 0x01, 0x04, 0x04]
            + seq![0x00u8, 0x00] + wire::be16(AUDIO_SAMPLE_RATE) + seq![0x00u8, 0x00] + wire::be16(
            AUDIO_SAMPLE_RATE,
        ) + seq![0x00u8, 0x00] + wire::be16(SERIAL_PORT) + seq![0x00u8, 0x00] + wire::be16(
            AUDIO_PORT,
        ) + seq![0x00u8, 0x00] + wire::be16(TX_SEQ_BUF_MS) + seq![
            0x01u8,
            0x00,
            0x00,
            0x00,
            0x00,
            0x00,
            0x00,
            0x00,
        ]
    }

    /// The state once `packet`, which used the inner counter, has been sent at time `now`.
    pub open spec fn sent(self, packet: Seq<u8>, now: u64) -> ControlView {
        ControlView {
            common: self.common.numbered(packet, now),
            auth_inner_seq: wire::after(self.auth_inner_seq, 1),
            ..self
        }
    }
}

impl ControlStream {
    /// A control stream that has not logged in.
    pub fn new(common: StreamCommon, username: &str, password: &str) -> (control: ControlStream)
        ensures
            control@ == ControlView::created(common@, username@, password@),
    {
        let auth_id: [u8; 6] = [0; 6];
        assert(auth_id@ =~= wire::zeros(6));
        ControlStream {
            common,
            auth_inner_seq: 0,
            auth_id,
            username: username.to_owned(),
            password: password.to_owned(),
        }
    }

    /// Takes the next value of the inner counter.
    pub fn next_inner_seq(&mut self) -> (seq: u16)
        ensures
            seq == old(self)@.auth_inner_seq,
            final(self)@ == (ControlView {
                auth_inner_seq: wire::after(old(self)@.auth_inner_seq, 1),
                ..old(self)@
            }),
    {
        let seq: u16 = self.auth_inner_seq;
        self.auth_inner_seq = seq.wrapping_add(1);
        seq
    }

    /// The login packet, with the unpredictable identifier `start_id`.
    pub fn login_with(&mut self, start_id: [u8; 2], now: u64) -> (out: Vec<u8>)
        ensures
            out@ == old(self)@.common.stamp(old(self)@.login(start_id@)),
            final(self)@ == old(self)@.sent(old(self)@.login(start_id@), now),
            old(self)@.wf() ==> final(self)@.wf(),
    {
        let ghost before = self@;
        let seq = self.next_inner_seq();
        let user = passcode(self.username.as_str());
        let pass = passcode(self.password.as_str());
        let mut p = self.common.begin(128, 0x00, 0);
        let head: [u8; 16] = [
            0x00,
            0x00,
            0x00,
            0x70,
            0x01,
            0x00,
            0x00,
            wire::low(seq),
            wire::high(seq),
            0x00,
            start_id[0],
            start_id[1],
            0x00,
            0x00,
            0x00,
            0x00,
        ];
        wire::append(&mut p, head.as_slice());
        wire::append_zeros(&mut p, 32);
        wire::append(&mut p, user.as_slice());
        wire::append(&mut p, pass.as_slice());
        let name: [u8; 8] = [0x69, 0x63, 0x6f, 0x6d, 0x2d, 0x70, 0x63, 0x00];
        wire::append(&mut p, name.as_slice());
        wire::append_zeros(&mut p, 24);
        assert(p@ =~= before.login(start_id@));
        self.common.send_tracked(p, now)
    }

    /// The login packet.
    pub fn send_login(&mut self, now: u64) -> (out: Vec<u8>)
        ensures
            exists|start_id: Seq<u8>|
                start_id.len() == 2 && out@ == old(self)@.common.stamp(
                    #[trigger] old(self)@.login(start_id),
                ) && final(self)@ == old(self)@.sent(old(self)@.login(start_id), now),
            old(self)@.wf() ==> final(self)@.wf(),
    {
        let start_id: [u8; 2] = [random_byte(), random_byte()];
        self.login_with(start_id, now)
    }

    /// An authentication packet: first token, renewal, or end of the session.
    pub fn send_auth(&mut self, magic: u8, now: u64) -> (out: Vec<u8>)
        ensures
            out@ == old(self)@.common.stamp(old(self)@.auth(magic)),
            final(self)@ == old(self)@.sent(old(self)@.auth(magic), now),
            old(self)@.wf() ==> final(self)@.wf(),
    {
        let ghost before = self@;
        let seq = self.next_inner_seq();
        let mut p = self.common.begin(64, 0x00, 0);
        let head: [u8; 10] = [
            0x00,
            0x00,
            0x00,
            0x30,
            0x01,
            magic,
            0x00,
            wire::low(seq),
            wire::high(seq),
            0x00,
        ];
        wire::append(&mut p, head.as_slice());
        wire::append(&mut p, self.auth_id.as_slice());
        wire::append_zeros(&mut p, 32);
        assert(p@ =~= before.auth(magic));
        self.common.send_tracked(p, now)
    }

    /// The packet that asks for the serial and audio streams. `a8` is the identifier that came with
    /// the capabilities of the radio.
    pub fn send_request_serial_audio(&mut self, a8: &[u8; 16], now: u64) -> (out: Vec<u8>)
        ensures
            out@ == old(self)@.common.stamp(old(self)@.serial_audio(a8@)),
            final(self)@ == old(self)@.sent(old(self)@.serial_audio(a8@), now),
            old(self)@.wf() ==> final(self)@.wf(),
    {
        let ghost before = self@;
        let seq = self.next_inner_seq();
        let user = passcode(self.username.as_str());
        let mut p = self.common.begin(144, 0x00, 0);
        let head: [u8; 10] = [
            0x00,
            0x00,
            0x00,
            0x80,
            0x01,
            0x03,
            0x00,
            wire::low(seq),
            wire::high(seq),
            0x00,
        ];
        wire::append(&mut p, head.as_slice());
        wire::append(&mut p, self.auth_id.as_slice());
        wire::append(&mut p, a8.as_slice());
        wire::append_zeros(&mut p, 16);
        let model: [u8; 8] = [0x49, 0x43, 0x2d, 0x37, 0x30, 0x35, 0x00, 0x00];
        wire::append(&mut p, model.as_slice());
        wire::append_zeros(&mut p, 24);
        wire::append(&mut p, user.as_slice());
        let ghost front = p@;
        let settings: [u8; 32] = [
            0x01,
            0x01,
            0x04,
            0x04,
            0x00,
            0x00,
            wire::high(AUDIO_SAMPLE_RATE),
            wire::low(AUDIO_SAMPLE_RATE),
            0x00,
            0x00,
            wire::high(AUDIO_SAMPLE_RATE),
            wire::low(AUDIO_SAMPLE_RATE),
            0x00,
            0x00,
            wire::high(SERIAL_PORT),
            wire::low(SERIAL_PORT),
            0x00,
            0x00,
            wire::high(AUDIO_PORT),
            wire::low(AUDIO_PORT),
            0x00,
            0x00,
            wire::high(TX_SEQ_BUF_MS),
            wire::low(TX_SEQ_BUF_MS),
            0x01,
            0x00,
            0x00,
            0x00,
            0x00,
            0x00,
            0x00,
            0x00,
        ];
        wire::append(&mut p, settings.as_slice());
        assert(p@ =~= before.serial_audio(a8@));
        self.common.send_tracked(p, now)
    }

    /// The packets that give the session back to the radio when the serial stream cannot be opened:
    /// end of the authentication, then disconnection.
    pub fn release(&mut self, now: u64) -> (list: Vec<Vec<u8>>)
        ensures
            wire::contents(list@) == old(self)@.released(),
            final(self)@ == old(self)@.sent(old(self)@.auth(AUTH_END), now),
            old(self)@.wf() ==> final(self)@.wf(),
    {
        let p = self.send_auth(AUTH_END, now);
        let mut list: Vec<Vec<u8>> = Vec::new();
        list.push(p);
        let more = self.common.send_disconnect();
        wire::append_all(&mut list, more);
        assert(wire::contents(list@) =~= old(self)@.released());
        list
    }
}

impl ControlView {
    /// The packets that give the session back to the radio.
    pub open spec fn released(self) -> Seq<Seq<u8>> {
        seq![self.common.stamp(self.auth(AUTH_END))] + self.common.farewell()
    }
}

proof fn header_is_sixteen_bytes(v: StreamView, len: u32, typ: u8, seq: u16)
    ensures
        v.header(len, typ, seq).len() == 16,
        v.header(len, typ, seq).take(4) == wire::le32(len),
{
    assert(v.header(len, typ, seq).take(4) =~= wire::le32(len));
}

/// The login packet is as long as it says, and holds the encoded user name at offset 64 and the
/// encoded password at offset 80.
pub proof fn layout_of_the_login_packet(v: ControlView, start_id: Seq<u8>)
    requires
        start_id.len() == 2,
    ensures
        v.login(start_id).len() == 128,
        v.login(start_id).take(4) == wire::le32(128),
        v.login(start_id).subrange(26, 28) == start_id,
        v.login(start_id).subrange(64, 80) == passcode_of(v.username),
        v.login(start_id).subrange(80, 96) == passcode_of(v.password),
{
    let p = v.login(start_id);
    header_is_sixteen_bytes(v.common, 128, 0x00, 0);
    assert(p.take(4) =~= v.common.header(128, 0x00, 0).take(4));
    assert(p.subrange(26, 28) =~= start_id);
    assert(p.subrange(64, 80) =~= passcode_of(v.username));
    assert(p.subrange(80, 96) =~= passcode_of(v.password));
}

/// The authentication packet is as long as it says, and holds the token of the radio at offset 26.
pub proof fn layout_of_the_authentication_packet(v: ControlView, magic: u8)
    requires
        v.auth_id.len() == 6,
    ensures
        v.auth(magic).len() == 64,
        v.auth(magic).take(4) == wire::le32(64),
        v.auth(magic)[21] == magic,
        v.auth(magic).subrange(26, 32) == v.auth_id,
{
    let p = v.auth(magic);
    header_is_sixteen_bytes(v.common, 64, 0x00, 0);
    assert(p.take(4) =~= v.common.header(64, 0x00, 0).take(4));
    assert(p.subrange(26, 32) =~= v.auth_id);
}

/// The request for the serial stream is as long as it says, and holds the token at offset 26, the
/// identifier of the capabilities at offset 32, the encoded user name at offset 96, and the port of
/// the serial stream at offset 126.
pub proof fn layout_of_the_serial_request(v: ControlView, a8: Seq<u8>)
    requires
        v.auth_id.len() == 6,
        a8.len() == 16,
    ensures
        v.serial_audio(a8).len() == 144,
        v.serial_audio(a8).take(4) == wire::le32(144),
        v.serial_audio(a8).subrange(26, 32) == v.auth_id,
        v.serial_audio(a8).subrange(32, 48) == a8,
        v.serial_audio(a8).subrange(96, 112) == passcode_of(v.username),
        v.serial_audio(a8).subrange(126, 128) == wire::be16(SERIAL_PORT),
{
    let p = v.serial_audio(a8);
    header_is_sixteen_bytes(v.common, 144, 0x00, 0);
    assert(p.take(4) =~= v.common.header(144, 0x00, 0).take(4));
    assert(p.subrange(26, 32) =~= v.auth_id);
    assert(p.subrange(32, 48) =~= a8);
    assert(p.subrange(96, 112) =~= passcode_of(v.username));
    assert(p.subrange(126, 128) =~= wire::be16(SERIAL_PORT));
}

proof fn ascii_codes_are_small(c: char)
    requires
        '\0' <= c <= '\u{7f}',
    ensures
        c as u8 == c as u32,
        c as u32 <= 127,
{
}

/// The encoding of an ASCII text: each character at its place goes through the table, shifted by
/// its place; there are 16 places.
pub proof fn credentials_are_encoded_character_by_character(s: Seq<char>, i: int)
    requires
        0 <= i < 16,
        vstd::utf8::is_ascii_chars(s),
    ensures
        passcode_of(s).len() == 16,
        i >= s.len() ==> passcode_of(s)[i] == 0,
        i < s.len() && 32 <= s[i] as u32 + i <= 126 ==> passcode_of(s)[i] == passcode::TABLE@[s[i]
            as u32 + i - 32],
        i < s.len() && s[i] as u32 + i > 126 ==> passcode_of(s)[i] == passcode::TABLE@[s[i] as u32
            + i - 127],
{
    vstd::utf8::is_ascii_chars_encode_utf8(s);
    if i < s.len() {
        ascii_codes_are_small(s[i]);
    }
    passcode::each_byte_is_shifted_by_its_position(vstd::utf8::encode_utf8(s), i);
}

/// The login packet, byte by byte beyond its header: 16 bytes that hold a length, the inner
/// counter, low byte first, and the random identifier; 32 zeros; user name and password; the name
/// `icom-pc`; zeros.
pub proof fn bytes_of_the_login_packet(v: ControlView, start_id: Seq<u8>, i: int)
    requires
        start_id.len() == 2,
    ensures
        ({
            let p = v.login(start_id);
            &&& p.len() == 128
            &&& p.take(16) == v.common.header(128, 0, 0)
            &&& p[16] == 0 && p[17] == 0 && p[18] == 0 && p[19] == 0x70 && p[20] == 1 && p[21] == 0
            &&& p[22] == 0
            &&& p[23] + 256 * p[24] == v.auth_inner_seq
            &&& p[25] == 0 && p[26] == start_id[0] && p[27] == start_id[1]
            &&& 28 <= i < 64 ==> p[i] == 0
            &&& 64 <= i < 80 ==> p[i] == passcode_of(v.username)[i - 64]
            &&& 80 <= i < 96 ==> p[i] == passcode_of(v.password)[i - 80]
            &&& p[96] == 0x69 && p[97] == 0x63 && p[98] == 0x6f && p[99] == 0x6d
            &&& p[100] == 0x2d && p[101] == 0x70 && p[102] == 0x63
            &&& 103 <= i < 128 ==> p[i] == 0
        }),
{
    let p = v.login(start_id);
    header_is_sixteen_bytes(v.common, 128, 0x00, 0);
    assert(p.take(16) =~= v.common.header(128, 0, 0));
}

/// The authentication packet, byte by byte beyond its header.
pub proof fn bytes_of_the_authentication_packet(v: ControlView, magic: u8, i: int)
    requires
        v.auth_id.len() == 6,
    ensures
        ({
            let p = v.auth(magic);
            &&& p.len() == 64
            &&& p.take(16) == v.common.header(64, 0, 0)
            &&& p[16] == 0 && p[17] == 0 && p[18] == 0 && p[19] == 0x30 && p[20] == 1
            &&& p[21] == magic
            &&& p[22] == 0
            &&& p[23] + 256 * p[24] == v.auth_inner_seq
            &&& p[25] == 0
            &&& 26 <= i < 32 ==> p[i] == v.auth_id[i - 26]
            &&& 32 <= i < 64 ==> p[i] == 0
        }),
{
    let p = v.auth(magic);
    header_is_sixteen_bytes(v.common, 64, 0x00, 0);
    assert(p.take(16) =~= v.common.header(64, 0, 0));
}

/// The request for the serial and audio streams, byte by byte beyond its header: the token, the
/// identifier of the capabilities, the model `IC-705`, the user name, then the codecs, the sample
/// rate 48000 twice, the ports 50002 and 50003, and the buffer of 300 ms, high bytes first.
pub proof fn bytes_of_the_serial_request(v: ControlView, a8: Seq<u8>, i: int)
    requires
        v.auth_id.len() == 6,
        a8.len() == 16,
    ensures
        ({
            let p = v.serial_audio(a8);
            &&& p.len() == 144
            &&& p.take(16) == v.common.header(144, 0, 0)
            &&& p[16] == 0 && p[17] == 0 && p[18] == 0 && p[19] == 0x80 && p[20] == 1 && p[21] == 3
            &&& p[22] == 0
            &&& p[23] + 256 * p[24] == v.auth_inner_seq
            &&& p[25] == 0
            &&& 26 <= i < 32 ==> p[i] == v.auth_id[i - 26]
            &&& 32 <= i < 48 ==> p[i] == a8[i - 32]
            &&& 48 <= i < 64 ==> p[i] == 0
            &&& p[64] == 0x49 && p[65] == 0x43 && p[66] == 0x2d
            &&& p[67] == 0x37 && p[68] == 0x30 && p[69] == 0x35
            &&& 70 <= i < 96 ==> p[i] == 0
            &&& 96 <= i < 112 ==> p[i] == passcode_of(v.username)[i - 96]
            &&& p[112] == 1 && p[113] == 1 && p[114] == 4 && p[115] == 4
            &&& p[116] == 0 && p[117] == 0 && 256 * p[118] + p[119] == 48000
            &&& p[120] == 0 && p[121] == 0 && 256 * p[122] + p[123] == 48000
            &&& p[124] == 0 && p[125] == 0 && 256 * p[126] + p[127] == 50002
            &&& p[128] == 0 && p[129] == 0 && 256 * p[130] + p[131] == 50003
            &&& p[132] == 0 && p[133] == 0 && 256 * p[134] + p[135] == 300
            &&& p[136] == 1
            &&& 137 <= i < 144 ==> p[i] == 0
        }),
{
    let p = v.serial_audio(a8);
    header_is_sixteen_bytes(v.common, 144, 0x00, 0);
    assert(p.take(16) =~= v.common.header(144, 0, 0));
}

/// A new control stream has no token, counts from 0, and keeps the credentials as given.
pub proof fn a_new_control_stream_has_no_token(
    common: StreamView,
    username: Seq<char>,
    password: Seq<char>,
)
    ensures
        ({
            let v = ControlView::created(common, username, password);
            &&& v.common == common
            &&& v.auth_inner_seq == 0
            &&& v.auth_id == seq![0u8, 0, 0, 0, 0, 0]
            &&& v.username == username
            &&& v.password == password
        }),
{
    assert(wire::zeros(6) =~= seq![0u8, 0, 0, 0, 0, 0]);
}

/// Each packet of the control stream takes a number and a value of the inner counter; token and
/// credentials stay.
pub proof fn control_packets_are_counted(v: ControlView, packet: Seq<u8>, now: u64)
    ensures
        ({
            let w = v.sent(packet, now);
            &&& w.common == v.common.numbered(packet, now)
            &&& w.auth_inner_seq == (v.auth_inner_seq + 1) % 65536
            &&& w.auth_id == v.auth_id
            &&& w.username == v.username
            &&& w.password == v.password
        }),
{
}

/// The session is given back by three packets: the end of the authentication (64 bytes, a 1 at
/// offset 21, the token at offset 26), under the next number, then twice the packet of type 5.
pub proof fn the_session_is_given_back(v: ControlView)
    requires
        v.auth_id.len() == 6,
    ensures
        ({
            let list = v.released();
            &&& list.len() == 3
            &&& list[0].len() == 64
            &&& list[0][0] == 64
            &&& list[0][4] == 0
            &&& list[0][6] + 256 * list[0][7] == v.common.pkt0.send_seq
            &&& list[0][21] == 1
            &&& list[0].subrange(26, 32) == v.auth_id
            &&& list[1] == v.common.header(16, 5, 0)
            &&& list[2] == v.common.header(16, 5, 0)
        }),
{
    let p = v.auth(1);
    bytes_of_the_authentication_packet(v, 1, 0);
    layout_of_the_authentication_packet(v, 1);
    header_is_sixteen_bytes(v.common, 64, 0x00, 0);
    let q = v.common.stamp(p);
    assert(p[0] == p.take(16)[0] && p[4] == p.take(16)[4]);
    assert(q.subrange(26, 32) =~= p.subrange(26, 32));
}

/// The ports of the radio, and the renewal of the authentication once a minute.
pub proof fn ports_and_pace_of_the_control_stream()
    ensures
        CONTROL_PORT == 50001,
        SERIAL_PORT == 50002,
        AUDIO_PORT == 50003,
        REAUTH_INTERVAL == 60 * 1_000_000_000,
        AUTH_FIRST == 2,
        AUTH_RENEW == 5,
        AUTH_END == 1,
{
}

} // verus!
