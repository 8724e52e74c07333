//! The message that `caffeinate` (the CLI) sends `caffeinate-tray`.
//!
//! The CLI always holds its own power request, so the tray is never load
//! bearing: what travels over this channel is only enough for the tray to
//! *show* that something is holding the machine awake. The transport itself
//! (`WM_COPYDATA` to a message-only window) lives with the program; this
//! module builds, checks and frames the message.

use vstd::prelude::*;

use crate::text::push_char;
use crate::utf16::{
    law_decode_inverts_encode, lemma_encode_front, char_from_u32, char_units, decode_lossy, encode, encode_into, is_lead_surrogate,
    is_trail_surrogate, len_units, pair_value, replacement,
};

verus! {

/// Bumped whenever [`Wire`] changes shape. A tray running an older build sees
/// a version it does not recognise and ignores the message rather than
/// misreading it.
pub const WIRE_VERSION: u32 = 2;

pub const KIND_ACQUIRE: u32 = 1;

pub const KIND_RELEASE: u32 = 2;

/// UTF-16 units reserved for the label. Long command lines are truncated; the
/// label is only ever shown in a menu row, so a fixed cap keeps the message a
/// fixed size that can be validated by size alone.
pub const LABEL_CAP: usize = 64;

/// What crosses the wire. Fixed size on purpose: the receiver can reject
/// anything whose size does not match exactly, before reading a single field.
#[derive(Clone, Copy)]
pub struct Wire {
    pub version: u32,
    pub kind: u32,
    pub pid: u32,
    pub label_len: u32,
    pub label: [u16; LABEL_CAP],
}

/// How many characters from the front of `s` fit in `room` UTF-16 units when
/// no character may be cut in half.
pub open spec fn fitting(s: Seq<char>, room: nat) -> nat
    decreases s.len(),
{
    if s.len() == 0 || char_units(s[0]).len() > room {
        0
    } else {
        1 + fitting(s.skip(1), (room - char_units(s[0]).len()) as nat)
    }
}

/// The units a label keeps: the longest run of whole characters from its
/// front whose encoding fits in [`LABEL_CAP`] units.
pub open spec fn truncated_label(s: Seq<char>) -> Seq<u16> {
    encode(s.take(fitting(s, LABEL_CAP as nat) as int))
}

/// A control character (general category Cc): U+0000 to U+001F and U+007F to
/// U+009F.
pub open spec fn is_control(c: char) -> bool {
    (c as u32) <= 0x1F || (0x7F <= (c as u32) && (c as u32) <= 0x9F)
}

/// A bidi override: LEFT-TO-RIGHT OVERRIDE (U+202D) or RIGHT-TO-LEFT
/// OVERRIDE (U+202E). Dropped into a menu row it would reverse the text around
/// it.
pub open spec fn is_bidi_override(c: char) -> bool {
    (c as u32) == 0x202D || (c as u32) == 0x202E
}

/// A character that could break a menu row: a control character or a bidi
/// override.
pub open spec fn breaks_row(c: char) -> bool {
    is_control(c) || is_bidi_override(c)
}

/// A character as a menu row shows it: anything that could break the row
/// becomes a space.
pub open spec fn fold_control(c: char) -> char {
    if breaks_row(c) { ' ' } else { c }
}

/// The text of a label's units as shown in a menu row.
pub open spec fn label_text(units: Seq<u16>) -> Seq<char> {
    decode_lossy(units).map_values(|c: char| fold_control(c))
}

proof fn lemma_encode_push(s: Seq<char>, i: int)
    requires
        0 <= i < s.len(),
    ensures
        encode(s.take(i + 1)) == encode(s.take(i)) + char_units(s[i]),
{
    assert(s.take(i + 1).drop_last() =~= s.take(i));
}

/// A character as a menu row shows it.
fn fold_control_char(c: char) -> (r: char)
    ensures
        r == fold_control(c),
{
    let v = c as u32;
    if v <= 0x1F || (0x7F <= v && v <= 0x9F) || v == 0x202D || v == 0x202E {
        ' '
    } else {
        c
    }
}

proof fn lemma_label_text_step(units: Seq<u16>, j: int, k: int, c: char)
    requires
        0 <= j,
        j + k <= units.len(),
        1 <= k,
        decode_lossy(units.skip(j)) == seq![c] + decode_lossy(units.skip(j).skip(k)),
    ensures
        label_text(units.skip(j)) == seq![fold_control(c)] + label_text(units.skip(j + k)),
{
    assert(units.skip(j).skip(k) =~= units.skip(j + k));
    assert(label_text(units.skip(j)) =~= seq![fold_control(c)] + label_text(units.skip(j + k)));
}

proof fn lemma_fitting(s: Seq<char>, room: nat)
    ensures
        fitting(s, room) <= s.len(),
        encode(s.take(fitting(s, room) as int)).len() <= room,
        encode(s).len() <= room ==> fitting(s, room) == s.len(),
    decreases s.len(),
{
    if s.len() > 0 {
        let u = char_units(s[0]).len();
        if u <= room {
            let k = fitting(s.skip(1), (room - u) as nat);
            lemma_fitting(s.skip(1), (room - u) as nat);
            lemma_encode_front(s.take(k + 1int));
            assert(s.take(k + 1int).skip(1) =~= s.skip(1).take(k as int));
            lemma_encode_front(s);
        } else {
            assert(s.take(0) =~= Seq::<char>::empty());
            lemma_encode_front(s);
        }
    } else {
        assert(s.take(0) =~= Seq::<char>::empty());
    }
}

/// What a label shows after the trip: its characters up to the truncation
/// point, exactly, with characters that could break a row folded to spaces. No character is
/// cut in half, so no replacement character is manufactured, and a label that
/// fits arrives whole.
pub proof fn law_label_round_trip(s: Seq<char>)
    ensures
        truncated_label(s).len() <= LABEL_CAP,
        label_text(truncated_label(s)) == s.take(fitting(s, LABEL_CAP as nat) as int).map_values(
            |c: char| fold_control(c),
        ),
        encode(s).len() <= LABEL_CAP ==> label_text(truncated_label(s)) == s.map_values(
            |c: char| fold_control(c),
        ),
{
    lemma_fitting(s, LABEL_CAP as nat);
    law_decode_inverts_encode(s.take(fitting(s, LABEL_CAP as nat) as int));
    if encode(s).len() <= LABEL_CAP {
        assert(s.take(s.len() as int) =~= s);
    }
}

impl Wire {
    /// The label's units, `label_len` of them, as far as the buffer reaches.
    pub open spec fn label_units(self) -> Seq<u16> {
        self.label@.take(
            if self.label_len as int <= LABEL_CAP as int {
                self.label_len as int
            } else {
                LABEL_CAP as int
            },
        )
    }

    /// Builds a message, truncating the label on a character boundary: cutting
    /// between the halves of a surrogate pair would leave a lone surrogate that
    /// renders as a replacement character.
    pub fn new(kind: u32, pid: u32, label: &str) -> (w: Wire)
        ensures
            w.version == WIRE_VERSION,
            w.kind == kind,
            w.pid == pid,
            w.label_len <= LABEL_CAP,
            w.label_len as int == truncated_label(label@).len(),
            w.label_units() == truncated_label(label@),
            w.label@.take(w.label_len as int) == truncated_label(label@),
            forall|j: int| w.label_len <= j < LABEL_CAP ==> w.label@[j] == 0,
    {
        let mut buf = [0u16; LABEL_CAP];
        let mut len: usize = 0;
        let n = label.unicode_len();
        let mut i: usize = 0;
        let mut full = false;
        let ghost s = label@;
        assert(buf@ =~= Seq::new(LABEL_CAP as nat, |j: int| 0u16));
        assert(s.skip(0) =~= s);
        assert(s.take(0) =~= Seq::<char>::empty());
        while i < n && !full
            invariant
                n == s.len(),
                s == label@,
                i <= n,
                len <= LABEL_CAP,
                buf@.len() == LABEL_CAP,
                buf@.take(len as int) == encode(s.take(i as int)),
                forall|j: int| len <= j < LABEL_CAP ==> buf@[j] == 0,
                full ==> fitting(s.skip(i as int), (LABEL_CAP - len) as nat) == 0,
                fitting(s, LABEL_CAP as nat) == i + fitting(s.skip(i as int), (LABEL_CAP - len) as nat),
            decreases n - i + (if full { 0int } else { 1int }),
        {
            let ch = label.get_char(i);
            let w = len_units(ch);
            assert(s.skip(i as int)[0] == ch);
            if len + w > LABEL_CAP {
                full = true;
            } else {
                let ghost old_buf = buf@;
                let written = encode_into(ch, &mut buf, len);
                proof {
                    lemma_encode_push(s, i as int);
                    assert(buf@.take(len + written) =~= old_buf.take(len as int) + char_units(ch)) by {
                        assert(buf@.subrange(len as int, len + written) == char_units(ch));
                    }
                    assert(s.skip(i as int).skip(1) =~= s.skip(i + 1));
                }
                len = len + written;
                i = i + 1;
            }
        }
        proof {
            lemma_fitting(s, LABEL_CAP as nat);
            if !full {
                assert(s.skip(i as int).len() == 0);
            }
            assert(s.take(i as int) =~= s.take(fitting(s, LABEL_CAP as nat) as int));
            assert(encode(s.take(i as int)).len() == len) by {
                assert(buf@.take(len as int).len() == len);
            }
        }
        let w = Wire { version: WIRE_VERSION, kind, pid, label_len: len as u32, label: buf };
        assert(w.label_units() =~= buf@.take(len as int));
        w
    }

    /// The label, made safe to drop straight into a menu row.
    ///
    /// The sender is not authenticated, so control characters and bidi
    /// overrides are folded to spaces here rather than trusted: a newline or a
    /// bidi override in a menu item is somebody else's problem to have.
    pub fn label_string(&self) -> (r: String)
        ensures
            r@ == label_text(self.label_units()),
            r@.len() == decode_lossy(self.label_units()).len(),
            forall|i: int|
                0 <= i < r@.len() ==> {
                    &&& !breaks_row(#[trigger] r@[i])
                    &&& breaks_row(decode_lossy(self.label_units())[i]) ==> r@[i] == ' '
                },
    {
        let len = if (self.label_len as usize) < LABEL_CAP {
            self.label_len as usize
        } else {
            LABEL_CAP
        };
        let ghost units = self.label_units();
        let mut out = String::new();
        let mut j: usize = 0;
        assert(units.skip(0) =~= units);
        while j < len
            invariant
                len <= LABEL_CAP,
                units == self.label@.take(len as int),
                j <= len,
                out@ + label_text(units.skip(j as int)) == label_text(units),
            decreases len - j,
        {
            let u = self.label[j];
            let ghost rest = units.skip(j as int);
            assert(rest[0] == u);
            let c;
            let step: usize;
            if 0xD800 <= u && u <= 0xDBFF && j + 1 < len && 0xDC00 <= self.label[j + 1]
                && self.label[j + 1] <= 0xDFFF {
                let t = self.label[j + 1];
                assert(rest[1] == t);
                let v: u32 = 0x10000 + (u as u32 - 0xD800) * 0x400 + (t as u32 - 0xDC00);
                assert(v == pair_value(u, t));
                c = char_from_u32(v).unwrap();
                step = 2;
                assert(rest.len() >= 2);
                proof {
                    vstd::utf8::char_u32_cast(c, v);
                }
                assert(decode_lossy(rest) == seq![c] + decode_lossy(rest.skip(2)));
            } else if 0xD800 <= u && u <= 0xDFFF {
                c = '\u{FFFD}';
                step = 1;
                assert(decode_lossy(rest) == seq![c] + decode_lossy(rest.skip(1)));
            } else {
                c = char_from_u32(u as u32).unwrap();
                step = 1;
                proof {
                    vstd::utf8::char_u32_cast(c, u as u32);
                }
                assert(decode_lossy(rest) == seq![c] + decode_lossy(rest.skip(1)));
            }
            proof {
                lemma_label_text_step(units, j as int, step as int, c);
            }
            let shown = fold_control_char(c);
            let ghost before = out@;
            push_char(&mut out, shown);
            assert(out@ + label_text(units.skip(j + step)) =~= before + label_text(
                units.skip(j as int),
            ));
            j = j + step;
        }
        assert(units.skip(len as int) =~= Seq::<u16>::empty());
        assert(label_text(Seq::<u16>::empty()) =~= Seq::<char>::empty());
        assert(out@ =~= out@ + label_text(units.skip(len as int)));
        assert(!breaks_row(' '));
        out
    }

    /// True if this looks like something to act on.
    pub fn is_valid(&self) -> (b: bool)
        ensures
            b == (self.version == WIRE_VERSION && (self.kind == KIND_ACQUIRE || self.kind
                == KIND_RELEASE) && self.pid != 0 && self.label_len <= LABEL_CAP),
    {
        self.version == WIRE_VERSION && (self.kind == KIND_ACQUIRE || self.kind == KIND_RELEASE)
            && self.pid != 0 && self.label_len as usize <= LABEL_CAP
    }
}


/// The size of a framed message: four 32-bit fields and the label buffer.
pub const WIRE_SIZE: usize = 144;

/// A 32-bit value in little-endian byte order.
pub open spec fn u32_bytes(v: u32) -> Seq<u8> {
    seq![
        (v % 256) as u8,
        ((v / 256) % 256) as u8,
        ((v / 65536) % 256) as u8,
        (v / 16777216) as u8,
    ]
}

/// A 16-bit value in little-endian byte order.
pub open spec fn u16_bytes(v: u16) -> Seq<u8> {
    seq![(v % 256) as u8, (v / 256) as u8]
}

/// Each unit in turn, little-endian.
pub open spec fn units_bytes(units: Seq<u16>) -> Seq<u8>
    decreases units.len(),
{
    if units.len() == 0 {
        Seq::empty()
    } else {
        units_bytes(units.drop_last()) + u16_bytes(units.last())
    }
}

/// The message framed in the layout of a C struct of its fields on a
/// little-endian machine: version, kind, pid, label length, then the label
/// buffer.
pub open spec fn wire_bytes(w: Wire) -> Seq<u8> {
    u32_bytes(w.version) + u32_bytes(w.kind) + u32_bytes(w.pid) + u32_bytes(w.label_len)
        + units_bytes(w.label@)
}

/// The little-endian 32-bit value at `at`.
pub open spec fn read_u32(b: Seq<u8>, at: int) -> u32 {
    (b[at] + b[at + 1] * 256 + b[at + 2] * 65536 + b[at + 3] * 16777216) as u32
}

/// The little-endian 16-bit value at `at`.
pub open spec fn read_u16(b: Seq<u8>, at: int) -> u16 {
    (b[at] + b[at + 1] * 256) as u16
}

proof fn lemma_units_bytes_len(units: Seq<u16>)
    ensures
        units_bytes(units).len() == 2 * units.len(),
    decreases units.len(),
{
    if units.len() > 0 {
        lemma_units_bytes_len(units.drop_last());
    }
}

proof fn lemma_units_bytes_index(units: Seq<u16>, i: int)
    requires
        0 <= i < units.len(),
    ensures
        units_bytes(units)[2 * i] == (units[i] % 256) as u8,
        units_bytes(units)[2 * i + 1] == (units[i] / 256) as u8,
    decreases units.len(),
{
    lemma_units_bytes_len(units.drop_last());
    if i < units.len() - 1 {
        lemma_units_bytes_index(units.drop_last(), i);
    }
}

proof fn lemma_u32_round_trip(v: u32)
    ensures
        (v % 256) as u8 + ((v / 256) % 256) as u8 * 256 + ((v / 65536) % 256) as u8 * 65536 + (v
            / 16777216) as u8 * 16777216 == v,
{
    assert((v % 256) as u8 + ((v / 256) % 256) as u8 * 256 + ((v / 65536) % 256) as u8 * 65536 + (v
        / 16777216) as u8 * 16777216 == v) by (bit_vector);
}

proof fn lemma_u16_round_trip(v: u16)
    ensures
        (v % 256) as u8 + (v / 256) as u8 * 256 == v,
{
    assert((v % 256) as u8 + (v / 256) as u8 * 256 == v) by (bit_vector);
}

fn push_u32(out: &mut Vec<u8>, v: u32)
    ensures
        final(out)@ == old(out)@ + u32_bytes(v),
{
    out.push((v % 256) as u8);
    out.push(((v / 256) % 256) as u8);
    out.push(((v / 65536) % 256) as u8);
    out.push((v / 16777216) as u8);
    assert(final(out)@ =~= old(out)@ + u32_bytes(v));
}

fn get_u32(b: &[u8], at: usize) -> (v: u32)
    requires
        at + 4 <= b@.len(),
    ensures
        v == read_u32(b@, at as int),
{
    b[at] as u32 + b[at + 1] as u32 * 256 + b[at + 2] as u32 * 65536 + b[at + 3] as u32 * 16777216
}

impl Wire {
    /// The message as the bytes that cross the wire.
    pub fn to_bytes(&self) -> (b: Vec<u8>)
        ensures
            b@ == wire_bytes(*self),
            b@.len() == WIRE_SIZE,
    {
        let mut out: Vec<u8> = Vec::new();
        push_u32(&mut out, self.version);
        push_u32(&mut out, self.kind);
        push_u32(&mut out, self.pid);
        push_u32(&mut out, self.label_len);
        let ghost head = out@;
        let mut i: usize = 0;
        while i < LABEL_CAP
            invariant
                i <= LABEL_CAP,
                out@ == head + units_bytes(self.label@.take(i as int)),
            decreases LABEL_CAP - i,
        {
            let u = self.label[i];
            out.push((u % 256) as u8);
            out.push((u / 256) as u8);
            assert(self.label@.take(i + 1).drop_last() =~= self.label@.take(i as int));
            assert(out@ =~= head + units_bytes(self.label@.take(i + 1)));
            i = i + 1;
        }
        assert(self.label@.take(LABEL_CAP as int) =~= self.label@);
        proof {
            lemma_units_bytes_len(self.label@);
        }
        out
    }

    /// Reads a message back from its bytes. Anything that is not exactly
    /// [`WIRE_SIZE`] bytes long is refused before a single field is read.
    pub fn from_bytes(b: &[u8]) -> (r: Option<Wire>)
        ensures
            r is Some <==> b@.len() == WIRE_SIZE,
            r matches Some(w) ==> {
                &&& w.version == read_u32(b@, 0)
                &&& w.kind == read_u32(b@, 4)
                &&& w.pid == read_u32(b@, 8)
                &&& w.label_len == read_u32(b@, 12)
                &&& forall|i: int| 0 <= i < LABEL_CAP ==> w.label@[i] == read_u16(b@, 16 + 2 * i)
            },
    {
        if b.len() != WIRE_SIZE {
            return None;
        }
        let mut label = [0u16; LABEL_CAP];
        let mut i: usize = 0;
        while i < LABEL_CAP
            invariant
                b@.len() == WIRE_SIZE,
                i <= LABEL_CAP,
                label@.len() == LABEL_CAP,
                forall|k: int| 0 <= k < i ==> label@[k] == read_u16(b@, 16 + 2 * k),
            decreases LABEL_CAP - i,
        {
            label[i] = b[16 + 2 * i] as u16 + b[17 + 2 * i] as u16 * 256;
            i = i + 1;
        }
        Some(
            Wire {
                version: get_u32(b, 0),
                kind: get_u32(b, 4),
                pid: get_u32(b, 8),
                label_len: get_u32(b, 12),
                label,
            },
        )
    }
}

/// Reading a framed message gives back every field that was framed.
pub proof fn law_framing_round_trip(w: Wire)
    ensures
        wire_bytes(w).len() == WIRE_SIZE,
        read_u32(wire_bytes(w), 0) == w.version,
        read_u32(wire_bytes(w), 4) == w.kind,
        read_u32(wire_bytes(w), 8) == w.pid,
        read_u32(wire_bytes(w), 12) == w.label_len,
        forall|i: int| 0 <= i < LABEL_CAP ==> read_u16(wire_bytes(w), 16 + 2 * i) == w.label@[i],
{
    let b = wire_bytes(w);
    lemma_units_bytes_len(w.label@);
    lemma_u32_round_trip(w.version);
    lemma_u32_round_trip(w.kind);
    lemma_u32_round_trip(w.pid);
    lemma_u32_round_trip(w.label_len);
    assert forall|i: int| 0 <= i < LABEL_CAP implies read_u16(b, 16 + 2 * i) == w.label@[i] by {
        lemma_units_bytes_index(w.label@, i);
        lemma_u16_round_trip(w.label@[i]);
        assert(b[16 + 2 * i] == units_bytes(w.label@)[2 * i]);
        assert(b[16 + 2 * i + 1] == units_bytes(w.label@)[2 * i + 1]);
    }
}

} // verus!
