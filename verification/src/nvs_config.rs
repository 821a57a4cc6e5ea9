//! WiFi credentials in the device's flash.
//!
//! Byte layout of the record:
//!
//! ```text
//!   [0..2]    magic 0xBEEF, little-endian: confirms a valid credential block
//!   [2..34]   SSID (32 bytes, null-padded)
//!   [34..98]  password (64 bytes, null-padded)
//!   [98..100] padding (zero): rounds up to 4-byte write alignment
//! ```

use vstd::prelude::*;

use crate::stuffing;
use crate::text;

verus! {

/// Where the record stands: the NVS partition starts at 0x9000 in the default
/// ESP-IDF partition table.
pub const NVS_OFFSET: u32 = 0x9000;

/// The minimum erasable unit.
pub const SECTOR_LEN: u32 = 4096;

/// The two bytes of the magic number, in the order in which they are stored.
pub const MAGIC_LOW: u8 = 0xEF;

pub const MAGIC_HIGH: u8 = 0xBE;

pub const SSID_LEN: usize = 32;

pub const PASS_LEN: usize = 64;

/// Padded to a multiple of 4.
pub const RECORD_LEN: usize = 100;

/// Where the password stands in the record.
pub const PASS_AT: usize = 34;

pub struct WifiCredentials {
    pub ssid: heapless::String<32>,
    pub password: heapless::String<64>,
}

/// What [`WifiCredentials`] say.
pub struct Credentials {
    pub ssid: Seq<char>,
    pub password: Seq<char>,
}

impl View for WifiCredentials {
    type V = Credentials;

    open spec fn view(&self) -> Credentials {
        Credentials { ssid: text::text32(self.ssid), password: text::text64(self.password) }
    }
}

/// The text of a null-padded field: a character for each byte.
pub open spec fn field_text(field: Seq<u8>) -> Seq<char> {
    Seq::new(stuffing::run(field), |i: int| field[i] as char)
}

/// The credentials in a record, or none where the magic is missing or a text
/// does not fit.
pub open spec fn credentials_in(record: Seq<u8>) -> Option<Credentials> {
    let ssid = field_text(record.subrange(2, PASS_AT as int));
    let password = field_text(record.subrange(PASS_AT as int, PASS_AT + PASS_LEN));
    if record[0] == MAGIC_LOW && record[1] == MAGIC_HIGH && text::utf8_len(ssid) <= SSID_LEN
        && text::utf8_len(password) <= PASS_LEN {
        Some(Credentials { ssid, password })
    } else {
        None
    }
}

/// `bytes`, padded with zeros to `len`.
pub open spec fn padded(bytes: Seq<u8>, len: nat) -> Seq<u8> {
    Seq::new(
        len,
        |i: int|
            if i < bytes.len() {
                bytes[i]
            } else {
                0
            },
    )
}

/// The record of credentials.
pub open spec fn record_of(c: Credentials) -> Seq<u8> {
    seq![MAGIC_LOW, MAGIC_HIGH] + padded(vstd::utf8::encode_utf8(c.ssid), SSID_LEN as nat) + padded(
        vstd::utf8::encode_utf8(c.password),
        PASS_LEN as nat,
    ) + seq![0u8, 0u8]
}

/// Length of the text in the field of `record` from `at` on.
fn field_len(record: &[u8; RECORD_LEN], at: usize, len: usize) -> (n: usize)
    requires
        at + len <= RECORD_LEN,
    ensures
        n == stuffing::run(record@.subrange(at as int, at + len)),
        n <= len,
{
    let ghost field = record@.subrange(at as int, at + len);
    let mut n: usize = 0;
    while n < len && record[at + n] != 0
        invariant
            n <= len,
            at + len <= RECORD_LEN,
            field == record@.subrange(at as int, at + len),
            stuffing::zero_free(field.take(n as int)),
        decreases len - n,
    {
        assert(field.take(n + 1) =~= field.take(n as int).push(record@[at + n]));
        n = n + 1;
    }
    proof {
        if n < len {
            assert(field =~= field.take(n as int) + seq![0u8] + field.skip(n + 1));
            stuffing::lemma_run_of(field.take(n as int), field.skip(n + 1));
        } else {
            assert(field.take(n as int) =~= field);
            stuffing::lemma_run(field);
        }
    }
    n
}

/// The credential store.
pub struct NvsConfig;

impl NvsConfig {
    /// Evaluate the record read from flash; `None` where reading failed. Returns
    /// `None` if no valid record exists.
    #[verifier::loop_isolation(false)]
    pub fn load(record: Option<[u8; RECORD_LEN]>) -> (r: Option<WifiCredentials>)
        ensures
            match record {
                None => r is None,
                Some(buf) => match r {
                    Some(c) => credentials_in(buf@) == Some(c@),
                    None => credentials_in(buf@) is None,
                },
            },
    {
        let buf = match record {
            Some(buf) => buf,
            None => return None,
        };
        if buf[0] != MAGIC_LOW || buf[1] != MAGIC_HIGH {
            return None;
        }
        let ssid_len = field_len(&buf, 2, SSID_LEN);
        let pass_len = field_len(&buf, PASS_AT, PASS_LEN);
        let ghost ssid_text = field_text(buf@.subrange(2, PASS_AT as int));
        let ghost pass_text = field_text(buf@.subrange(PASS_AT as int, PASS_AT + PASS_LEN));

        let mut ssid = text::new32();
        let mut i: usize = 0;
        while i < ssid_len
            invariant
                i <= ssid_len,
                text::text32(ssid) == ssid_text.take(i as int),
                text::utf8_len(ssid_text.take(i as int)) <= SSID_LEN,
            decreases ssid_len - i,
        {
            let c = buf[2 + i] as char;
            assert(ssid_text.take(i as int).push(c) =~= ssid_text.take(i + 1));
            proof {
                text::lemma_utf8_prefix(ssid_text, i + 1);
            }
            if text::push32(&mut ssid, c).is_err() {
                return None;
            }
            i = i + 1;
        }
        assert(ssid_text.take(ssid_len as int) =~= ssid_text);

        let mut password = text::new64();
        let mut j: usize = 0;
        while j < pass_len
            invariant
                j <= pass_len,
                text::text64(password) == pass_text.take(j as int),
                text::utf8_len(pass_text.take(j as int)) <= PASS_LEN,
            decreases pass_len - j,
        {
            let c = buf[PASS_AT + j] as char;
            assert(pass_text.take(j as int).push(c) =~= pass_text.take(j + 1));
            proof {
                text::lemma_utf8_prefix(pass_text, j + 1);
            }
            if text::push64(&mut password, c).is_err() {
                return None;
            }
            j = j + 1;
        }
        assert(pass_text.take(pass_len as int) =~= pass_text);
        Some(WifiCredentials { ssid, password })
    }

    /// The record to write to flash. The sector at `NVS_OFFSET` has to be erased
    /// first.
    pub fn save(creds: &WifiCredentials) -> (buf: [u8; RECORD_LEN])
        ensures
            buf@ == record_of(creds@),
    {
        let mut buf: [u8; RECORD_LEN] = [0u8; RECORD_LEN];
        buf[0] = MAGIC_LOW;
        buf[1] = MAGIC_HIGH;
        let ssid = text::bytes32(&creds.ssid);
        let password = text::bytes64(&creds.password);
        let mut i: usize = 0;
        while i < ssid.len()
            invariant
                i <= ssid@.len() <= SSID_LEN,
                buf@.len() == RECORD_LEN,
                buf@[0] == MAGIC_LOW && buf@[1] == MAGIC_HIGH,
                forall|k: int| 0 <= k < i ==> #[trigger] buf@[2 + k] == ssid@[k],
                forall|k: int| 2 + i <= k < RECORD_LEN ==> #[trigger] buf@[k] == 0,
            decreases ssid@.len() - i,
        {
            buf[2 + i] = ssid[i];
            i = i + 1;
        }
        let mut j: usize = 0;
        while j < password.len()
            invariant
                j <= password@.len() <= PASS_LEN,
                ssid@.len() <= SSID_LEN,
                buf@.len() == RECORD_LEN,
                buf@[0] == MAGIC_LOW && buf@[1] == MAGIC_HIGH,
                forall|k: int| 0 <= k < ssid@.len() ==> #[trigger] buf@[2 + k] == ssid@[k],
                forall|k: int| 2 + ssid@.len() <= k < PASS_AT ==> #[trigger] buf@[k] == 0,
                forall|k: int| 0 <= k < j ==> #[trigger] buf@[PASS_AT + k] == password@[k],
                forall|k: int| PASS_AT + j <= k < RECORD_LEN ==> #[trigger] buf@[k] == 0,
            decreases password@.len() - j,
        {
            buf[PASS_AT + j] = password[j];
            j = j + 1;
        }
        assert(buf@ =~= record_of(creds@)) by {
            let want = record_of(creds@);
            assert forall|k: int| 0 <= k < RECORD_LEN implies buf@[k] == want[k] by {
                if 2 <= k < PASS_AT {
                    assert(buf@[2 + (k - 2)] == buf@[k]);
                } else if PASS_AT <= k < PASS_AT + PASS_LEN {
                    assert(buf@[PASS_AT + (k - PASS_AT)] == buf@[k]);
                }
            }
        }
        buf
    }
}

/// The text is ASCII without the padding character, and of at most `len`
/// characters.
pub open spec fn storable(chars: Seq<char>, len: nat) -> bool {
    &&& chars.len() <= len
    &&& text::ascii(chars)
    &&& forall|i: int| 0 <= i < chars.len() ==> (#[trigger] chars[i]) as u32 != 0
}

proof fn lemma_char(c: char, b: u8)
    requires
        b == c as u32,
    ensures
        b as char == c,
{
}

proof fn lemma_field(chars: Seq<char>, len: nat)
    requires
        storable(chars, len),
    ensures
        field_text(padded(vstd::utf8::encode_utf8(chars), len)) == chars,
{
    let bytes = vstd::utf8::encode_utf8(chars);
    let field = padded(bytes, len);
    text::lemma_ascii_bytes(chars);
    assert forall|i: int| 0 <= i < bytes.len() implies bytes[i] != 0 by {
        assert(chars[i] as u32 != 0);
    }
    if bytes.len() < len {
        let rest = field.skip(bytes.len() as int + 1);
        assert(field =~= bytes + seq![0u8] + rest);
        stuffing::lemma_run_of(bytes, rest);
    } else {
        assert(field =~= bytes);
        stuffing::lemma_run(field);
    }
    assert forall|i: int| 0 <= i < chars.len() implies field_text(field)[i] == chars[i] by {
        assert(bytes[i] == chars[i] as u32);
        lemma_char(chars[i], bytes[i]);
    }
    assert(field_text(field) =~= chars);
}

/// What was saved is what gets loaded, for ASCII credentials without the
/// padding character.
pub proof fn law_saved_is_loaded(c: Credentials)
    requires
        storable(c.ssid, SSID_LEN as nat),
        storable(c.password, PASS_LEN as nat),
    ensures
        record_of(c).len() == RECORD_LEN,
        credentials_in(record_of(c)) == Some(c),
{
    lemma_field(c.ssid, SSID_LEN as nat);
    lemma_field(c.password, PASS_LEN as nat);
    text::lemma_ascii_bytes(c.ssid);
    text::lemma_ascii_bytes(c.password);
    let r = record_of(c);
    assert(r.subrange(2, PASS_AT as int) =~= padded(
        vstd::utf8::encode_utf8(c.ssid),
        SSID_LEN as nat,
    ));
    assert(r.subrange(PASS_AT as int, PASS_AT + PASS_LEN) =~= padded(
        vstd::utf8::encode_utf8(c.password),
        PASS_LEN as nat,
    ));
}

/// Erased flash holds no credentials.
pub proof fn law_erased_is_empty(record: Seq<u8>)
    requires
        record.len() == RECORD_LEN,
        forall|i: int| 0 <= i < record.len() ==> #[trigger] record[i] == 0xFF,
    ensures
        credentials_in(record) is None,
{
}

/// The record's layout: the magic, then the name from the third byte on, then the
/// password from the 35th byte on, with zeros behind each.
pub proof fn law_record_layout(c: Credentials, i: int)
    requires
        storable(c.ssid, 32),
        storable(c.password, 64),
        0 <= i < 100,
    ensures
        record_of(c).len() == 100,
        record_of(c)[0] == 0xEF,
        record_of(c)[1] == 0xBE,
        2 <= i < 34 ==> record_of(c)[i] == (if i - 2 < c.ssid.len() {
            c.ssid[i - 2] as u32
        } else {
            0
        }),
        34 <= i < 98 ==> record_of(c)[i] == (if i - 34 < c.password.len() {
            c.password[i - 34] as u32
        } else {
            0
        }),
        98 <= i ==> record_of(c)[i] == 0,
{
    text::lemma_ascii_bytes(c.ssid);
    text::lemma_ascii_bytes(c.password);
}

/// A record without the magic holds no credentials, whatever else it holds.
pub proof fn law_magic_is_needed(record: Seq<u8>)
    requires
        record.len() == 100,
        record[0] != 0xEF || record[1] != 0xBE,
    ensures
        credentials_in(record) is None,
{
}

/// Different credentials have different records.
pub proof fn law_records_differ(a: Credentials, b: Credentials)
    requires
        storable(a.ssid, 32),
        storable(a.password, 64),
        storable(b.ssid, 32),
        storable(b.password, 64),
        record_of(a) == record_of(b),
    ensures
        a.ssid == b.ssid,
        a.password == b.password,
{
    law_saved_is_loaded(a);
    law_saved_is_loaded(b);
}

} // verus!
