//! Peer identifiers: 128-bit UUIDs and their hyphenated hexadecimal text.

use crate::error::TipcError;
use vstd::prelude::*;
use vstd::string::*;

verus! {

/// Number of bytes in the binary form of a UUID.
pub const UUID_BYTE_LEN: usize = 16;

/// Number of characters in the text form of a UUID.
pub const UUID_STR_LEN: usize = 36;

/// Mathematical value of a [`Uuid`].
pub struct UuidValue {
    pub time_low: u32,
    pub time_mid: u16,
    pub time_hi_and_version: u16,
    pub clock_seq_and_node: Seq<u8>,
}

/// Identifier of an application that connects to a port.
#[derive(Clone, Copy, Debug, PartialEq, Eq)]
pub struct Uuid {
    time_low: u32,
    time_mid: u16,
    time_hi_and_version: u16,
    clock_seq_and_node: [u8; 8],
}

impl View for Uuid {
    type V = UuidValue;

    closed spec fn view(&self) -> UuidValue {
        UuidValue {
            time_low: self.time_low,
            time_mid: self.time_mid,
            time_hi_and_version: self.time_hi_and_version,
            clock_seq_and_node: self.clock_seq_and_node@,
        }
    }
}

/// Value of one hexadecimal digit, in either case; `None` for any other character.
pub open spec fn hex_digit(c: char) -> Option<nat> {
    let v = c as nat;
    if 0x30 <= v <= 0x39 {
        Some((v - 0x30) as nat)
    } else if 0x61 <= v <= 0x66 {
        Some((v - 0x61 + 10) as nat)
    } else if 0x41 <= v <= 0x46 {
        Some((v - 0x41 + 10) as nat)
    } else {
        None
    }
}

/// The lower-case digit that stands for `d`, for `d` below sixteen.
pub open spec fn hex_char(d: nat) -> char {
    if d < 10 {
        (0x30 + d) as char
    } else {
        (0x61 + d - 10) as char
    }
}

/// A hexadecimal letter in lower case; every other character unchanged.
pub open spec fn lower_char(c: char) -> char {
    if 0x41 <= c as nat <= 0x46 {
        (c as nat + 0x20) as char
    } else {
        c
    }
}

/// `s` with its upper-case hexadecimal letters in lower case.
pub open spec fn lowercase(s: Seq<char>) -> Seq<char> {
    Seq::new(s.len(), |i: int| lower_char(s[i]))
}

/// Every character of `s` is a hexadecimal digit.
pub open spec fn all_hex(s: Seq<char>) -> bool {
    forall|i: int| 0 <= i < s.len() ==> (#[trigger] hex_digit(s[i])) is Some
}

/// Sixteen to the power `k`.
pub open spec fn pow16(k: nat) -> nat
    decreases k,
{
    if k == 0 {
        1
    } else {
        16 * pow16((k - 1) as nat)
    }
}

/// The number that the digits of `s` write in base sixteen, most significant first.
pub open spec fn hex_value(s: Seq<char>) -> nat
    decreases s.len(),
{
    if s.len() == 0 {
        0
    } else {
        hex_value(s.drop_last()) * 16 + hex_digit(s.last()).unwrap()
    }
}

/// The last `width` digits of `n` in base sixteen, lower case, most significant first.
pub open spec fn hex_text(n: nat, width: nat) -> Seq<char>
    decreases width,
{
    if width == 0 {
        Seq::empty()
    } else {
        hex_text(n / 16, (width - 1) as nat).push(hex_char(n % 16))
    }
}

/// Whether position `i` of the text form holds a hyphen.
pub open spec fn is_hyphen_pos(i: int) -> bool {
    i == 8 || i == 13 || i == 18 || i == 23
}

/// `s` has the form `XXXXXXXX-XXXX-XXXX-XXXX-XXXXXXXXXXXX` with hexadecimal digits for `X`.
pub open spec fn is_canonical(s: Seq<char>) -> bool {
    &&& s.len() == 36
    &&& s[8] == '-'
    &&& s[13] == '-'
    &&& s[18] == '-'
    &&& s[23] == '-'
    &&& forall|i: int| 0 <= i < 36 && !is_hyphen_pos(i) ==> (#[trigger] hex_digit(s[i])) is Some
}

/// Position in the text form of the first digit of byte `k` of the last field.
pub open spec fn node_pos(k: int) -> int {
    if k < 2 {
        19 + 2 * k
    } else {
        20 + 2 * k
    }
}

/// The identifier that a canonical text denotes.
pub open spec fn parsed(s: Seq<char>) -> UuidValue {
    UuidValue {
        time_low: hex_value(s.subrange(0, 8)) as u32,
        time_mid: hex_value(s.subrange(9, 13)) as u16,
        time_hi_and_version: hex_value(s.subrange(14, 18)) as u16,
        clock_seq_and_node: Seq::new(
            8,
            |k: int| hex_value(s.subrange(node_pos(k), node_pos(k) + 2)) as u8,
        ),
    }
}

/// The canonical lower-case text of an identifier.
pub open spec fn formatted(v: UuidValue) -> Seq<char> {
    let n = v.clock_seq_and_node;
    hex_text(v.time_low as nat, 8) + seq!['-'] + hex_text(v.time_mid as nat, 4) + seq!['-']
        + hex_text(v.time_hi_and_version as nat, 4) + seq!['-'] + hex_text(n[0] as nat, 2)
        + hex_text(n[1] as nat, 2) + seq!['-'] + hex_text(n[2] as nat, 2) + hex_text(
        n[3] as nat,
        2,
    ) + hex_text(n[4] as nat, 2) + hex_text(n[5] as nat, 2) + hex_text(n[6] as nat, 2) + hex_text(
        n[7] as nat,
        2,
    )
}

/// The identifier whose binary form is `b`: the three integers in little-endian
/// order, then the eight bytes of the last field.
pub open spec fn from_le_bytes(b: Seq<u8>) -> UuidValue {
    UuidValue {
        time_low: (b[0] + b[1] * 0x100 + b[2] * 0x1_0000 + b[3] * 0x100_0000) as u32,
        time_mid: (b[4] + b[5] * 0x100) as u16,
        time_hi_and_version: (b[6] + b[7] * 0x100) as u16,
        clock_seq_and_node: b.subrange(8, 16),
    }
}

proof fn lemma_pow16_values()
    ensures
        pow16(0) == 1,
        pow16(1) == 0x10,
        pow16(2) == 0x100,
        pow16(4) == 0x1_0000,
        pow16(8) == 0x1_0000_0000,
{
    reveal_with_fuel(pow16, 9);
}

/// A text of `k` digits writes a number below sixteen to the `k`.
pub proof fn lemma_hex_value_bound(s: Seq<char>)
    requires
        all_hex(s),
    ensures
        hex_value(s) < pow16(s.len()),
    decreases s.len(),
{
    if s.len() > 0 {
        let t = s.drop_last();
        assert forall|i: int| 0 <= i < t.len() implies (#[trigger] hex_digit(t[i])) is Some by {
            assert(t[i] == s[i]);
        }
        lemma_hex_value_bound(t);
        assert(hex_digit(s[s.len() - 1]) is Some);
    }
}

/// Writing a number in `width` digits gives `width` digits.
pub proof fn lemma_hex_text_shape(n: nat, width: nat)
    ensures
        hex_text(n, width).len() == width,
        all_hex(hex_text(n, width)),
        lowercase(hex_text(n, width)) == hex_text(n, width),
    decreases width,
{
    if width > 0 {
        lemma_hex_text_shape(n / 16, (width - 1) as nat);
        let t = hex_text(n / 16, (width - 1) as nat);
        let s = hex_text(n, width);
        assert(s == t.push(hex_char(n % 16)));
        assert forall|i: int| 0 <= i < s.len() implies (#[trigger] hex_digit(s[i])) is Some by {
            if i < t.len() {
                assert(s[i] == t[i]);
                assert(hex_digit(t[i]) is Some);
            }
        }
        assert(lowercase(s) =~= s) by {
            assert forall|i: int| 0 <= i < s.len() implies lower_char(s[i]) == s[i] by {
                if i < t.len() {
                    assert(lowercase(t)[i] == t[i]);
                }
            }
        }
    } else {
        assert(lowercase(hex_text(n, width)) =~= hex_text(n, width));
    }
}

/// Reading back what was written gives the number, when it fits the width.
pub proof fn lemma_hex_value_of_text(n: nat, width: nat)
    requires
        n < pow16(width),
    ensures
        hex_value(hex_text(n, width)) == n,
    decreases width,
{
    if width > 0 {
        let t = hex_text(n / 16, (width - 1) as nat);
        let s = hex_text(n, width);
        lemma_hex_value_of_text(n / 16, (width - 1) as nat);
        assert(s.drop_last() =~= t);
        assert(s.last() == hex_char(n % 16));
        assert(hex_digit(hex_char(n % 16)) == Some(n % 16));
    }
}

/// Writing what was read gives the text back, in lower case.
pub proof fn lemma_hex_text_of_value(s: Seq<char>)
    requires
        all_hex(s),
    ensures
        hex_text(hex_value(s), s.len()) == lowercase(s),
    decreases s.len(),
{
    if s.len() > 0 {
        let t = s.drop_last();
        assert forall|i: int| 0 <= i < t.len() implies (#[trigger] hex_digit(t[i])) is Some by {
            assert(t[i] == s[i]);
        }
        lemma_hex_text_of_value(t);
        let c = s.last();
        assert(hex_digit(s[s.len() - 1]) is Some);
        let d = hex_digit(c).unwrap();
        assert(hex_value(s) == hex_value(t) * 16 + d);
        assert(hex_value(s) / 16 == hex_value(t));
        assert(hex_value(s) % 16 == d);
        assert(hex_char(d) == lower_char(c));
        assert(hex_text(hex_value(s), s.len()) =~= lowercase(t).push(lower_char(c)));
        assert(lowercase(t).push(lower_char(c)) =~= lowercase(s));
    } else {
        assert(hex_text(hex_value(s), s.len()) =~= lowercase(s));
    }
}


/// The text of a single lower-case digit.
fn hex_literal(d: u64) -> (r: &'static str)
    requires
        d < 16,
    ensures
        r@ == seq![hex_char(d as nat)],
{
    proof {
        reveal_strlit("0");
        reveal_strlit("1");
        reveal_strlit("2");
        reveal_strlit("3");
        reveal_strlit("4");
        reveal_strlit("5");
        reveal_strlit("6");
        reveal_strlit("7");
        reveal_strlit("8");
        reveal_strlit("9");
        reveal_strlit("a");
        reveal_strlit("b");
        reveal_strlit("c");
        reveal_strlit("d");
        reveal_strlit("e");
        reveal_strlit("f");
    }
    let r = match d {
        0 => "0",
        1 => "1",
        2 => "2",
        3 => "3",
        4 => "4",
        5 => "5",
        6 => "6",
        7 => "7",
        8 => "8",
        9 => "9",
        10 => "a",
        11 => "b",
        12 => "c",
        13 => "d",
        14 => "e",
        _ => "f",
    };
    assert(r@ =~= seq![hex_char(d as nat)]);
    r
}

/// Appends the last `width` hexadecimal digits of `n` to `out`.
pub fn push_hex(out: &mut String, n: u64, width: usize)
    ensures
        final(out)@ == old(out)@ + hex_text(n as nat, width as nat),
    decreases width,
{
    if width > 0 {
        push_hex(out, n / 16, width - 1);
        out.append(hex_literal(n % 16));
        assert(final(out)@ =~= old(out)@ + hex_text(n as nat, width as nat));
    } else {
        assert(final(out)@ =~= old(out)@ + hex_text(n as nat, width as nat));
    }
}

/// Value of the digit whose character code is `b`.
fn digit_of(b: u8, Ghost(c): Ghost<char>) -> (r: Option<u8>)
    requires
        b as nat == c as nat,
    ensures
        r is Some <==> hex_digit(c) is Some,
        r matches Some(d) ==> d as nat == hex_digit(c).unwrap(),
{
    if 0x30 <= b && b <= 0x39 {
        Some(b - 0x30)
    } else if 0x61 <= b && b <= 0x66 {
        Some(b - 0x61 + 10)
    } else if 0x41 <= b && b <= 0x46 {
        Some(b - 0x41 + 10)
    } else {
        None
    }
}

/// Reads the digits of `bytes` between `start` and `end` as one number.
fn parse_hex(bytes: &[u8], start: usize, end: usize, Ghost(text): Ghost<Seq<char>>) -> (r: Option<
    u64,
>)
    requires
        start <= end <= bytes@.len(),
        end - start <= 8,
        bytes@.len() == text.len(),
        forall|i: int| 0 <= i < text.len() ==> bytes@[i] as nat == text[i] as nat,
    ensures
        r is Some <==> all_hex(text.subrange(start as int, end as int)),
        r matches Some(v) ==> v as nat == hex_value(text.subrange(start as int, end as int)),
{
    let mut acc: u64 = 0;
    let mut i: usize = start;
    proof {
        lemma_pow16_values();
        assert(text.subrange(start as int, start as int) =~= Seq::<char>::empty());
    }
    while i < end
        invariant
            start <= i <= end <= bytes@.len(),
            end - start <= 8,
            bytes@.len() == text.len(),
            forall|k: int| 0 <= k < text.len() ==> bytes@[k] as nat == text[k] as nat,
            all_hex(text.subrange(start as int, i as int)),
            acc as nat == hex_value(text.subrange(start as int, i as int)),
            acc < 0x1_0000_0000,
        decreases end - i,
    {
        let ghost before = text.subrange(start as int, i as int);
        let ghost after = text.subrange(start as int, i + 1);
        proof {
            assert(after.drop_last() =~= before);
            assert(after.last() == text[i as int]);
        }
        match digit_of(bytes[i], Ghost(text[i as int])) {
            Some(d) => {
                proof {
                    assert forall|k: int| 0 <= k < after.len() implies (#[trigger] hex_digit(
                        after[k],
                    )) is Some by {
                        if k < before.len() {
                            assert(after[k] == before[k]);
                            assert(hex_digit(before[k]) is Some);
                        }
                    }
                    lemma_hex_value_bound(after);
                    lemma_pow16_bounded(after.len());
                }
                acc = acc * 16 + d as u64;
                i = i + 1;
            },
            None => {
                proof {
                    let whole = text.subrange(start as int, end as int);
                    assert(whole[i - start] == text[i as int]);
                    assert(!(hex_digit(whole[i - start]) is Some));
                }
                return None;
            },
        }
    }
    Some(acc)
}

proof fn lemma_pow16_bounded(k: nat)
    requires
        k <= 8,
    ensures
        pow16(k) <= 0x1_0000_0000,
{
    reveal_with_fuel(pow16, 9);
}

impl Uuid {
    /// An identifier from its four fields.
    pub fn new(
        time_low: u32,
        time_mid: u16,
        time_hi_and_version: u16,
        clock_seq_and_node: [u8; 8],
    ) -> (r: Self)
        ensures
            r@ == (UuidValue {
                time_low,
                time_mid,
                time_hi_and_version,
                clock_seq_and_node: clock_seq_and_node@,
            }),
    {
        Uuid { time_low, time_mid, time_hi_and_version, clock_seq_and_node }
    }

    /// An identifier from its binary form.
    pub fn from_bytes(bytes: &[u8; 16]) -> (r: Self)
        ensures
            r@ == from_le_bytes(bytes@),
    {
        let time_low: u32 = bytes[0] as u32 + bytes[1] as u32 * 0x100 + bytes[2] as u32 * 0x1_0000
            + bytes[3] as u32 * 0x100_0000;
        let time_mid: u16 = bytes[4] as u16 + bytes[5] as u16 * 0x100;
        let time_hi_and_version: u16 = bytes[6] as u16 + bytes[7] as u16 * 0x100;
        let clock_seq_and_node: [u8; 8] = [
            bytes[8],
            bytes[9],
            bytes[10],
            bytes[11],
            bytes[12],
            bytes[13],
            bytes[14],
            bytes[15],
        ];
        assert(clock_seq_and_node@ =~= bytes@.subrange(8, 16));
        Uuid { time_low, time_mid, time_hi_and_version, clock_seq_and_node }
    }

    /// An identifier from a slice that holds its binary form; `OutOfBounds`
    /// unless the slice has exactly sixteen bytes.
    pub fn try_from_bytes(bytes: &[u8]) -> (r: Result<Self, TipcError>)
        ensures
            r is Ok <==> bytes@.len() == 16,
            r matches Ok(u) ==> u@ == from_le_bytes(bytes@),
            r matches Err(e) ==> e == TipcError::OutOfBounds,
    {
        if bytes.len() != UUID_BYTE_LEN {
            return Err(TipcError::OutOfBounds);
        }
        let mut copy: [u8; 16] = [0u8;16];
        let mut i: usize = 0;
        while i < 16
            invariant
                i <= 16,
                bytes@.len() == 16,
                forall|k: int| 0 <= k < i ==> copy@[k] == bytes@[k],
            decreases 16 - i,
        {
            copy[i] = bytes[i];
            i = i + 1;
        }
        assert(copy@ =~= bytes@);
        Ok(Uuid::from_bytes(&copy))
    }

    /// Parses the text form. Both cases of the letters `a` to `f` are read;
    /// any text that is not canonical is `InvalidData`.
    pub fn new_from_string(uuid_str: &str) -> (r: Result<Self, TipcError>)
        ensures
            r is Ok <==> is_canonical(uuid_str@),
            r matches Ok(u) ==> u@ == parsed(uuid_str@),
            r matches Err(e) ==> e == TipcError::InvalidData,
    {
        broadcast use vstd::string::is_ascii_spec_bytes;

        let ghost text = uuid_str@;
        if !uuid_str.is_ascii() {
            proof {
                if is_canonical(text) {
                    let i = choose|i: int|
                        0 <= i < text.len() && !('\0' <= (#[trigger] text[i]) && text[i] <= '\u{7f}');
                    assert(is_hyphen_pos(i) || hex_digit(text[i]) is Some);
                    lemma_char_floor(text[i]);
                }
            }
            return Err(TipcError::InvalidData);
        }
        let bytes = uuid_str.as_bytes();
        assert(bytes@.len() == text.len());
        assert forall|i: int| 0 <= i < text.len() implies bytes@[i] as nat == text[i] as nat by {
            assert('\0' <= text[i] <= '\u{7f}');
        }
        if bytes.len() != UUID_STR_LEN {
            return Err(TipcError::InvalidData);
        }
        if bytes[8] != 0x2d || bytes[13] != 0x2d || bytes[18] != 0x2d || bytes[23] != 0x2d {
            proof {
                assert(is_hyphen_pos(8) && is_hyphen_pos(13) && is_hyphen_pos(18) && is_hyphen_pos(
                    23,
                ));
            }
            return Err(TipcError::InvalidData);
        }
        proof {
            lemma_pow16_values();
        }
        let time_low = match parse_hex(bytes, 0, 8, Ghost(text)) {
            Some(v) => v,
            None => {
                proof {
                    lemma_segment_not_hex(text, 0, 8);
                }
                return Err(TipcError::InvalidData);
            },
        };
        let time_mid = match parse_hex(bytes, 9, 13, Ghost(text)) {
            Some(v) => v,
            None => {
                proof {
                    lemma_segment_not_hex(text, 9, 13);
                }
                return Err(TipcError::InvalidData);
            },
        };
        let time_hi_and_version = match parse_hex(bytes, 14, 18, Ghost(text)) {
            Some(v) => v,
            None => {
                proof {
                    lemma_segment_not_hex(text, 14, 18);
                }
                return Err(TipcError::InvalidData);
            },
        };
        let mut clock_seq_and_node: [u8; 8] = [0u8;8];
        let mut k: usize = 0;
        while k < 8
            invariant
                k <= 8,
                text == uuid_str@,
                bytes@.len() == 36,
                bytes@.len() == text.len(),
                forall|i: int| 0 <= i < text.len() ==> bytes@[i] as nat == text[i] as nat,
                forall|j: int|
                    0 <= j < k ==> all_hex(#[trigger] text.subrange(node_pos(j), node_pos(j) + 2)),
                forall|j: int|
                    0 <= j < k ==> clock_seq_and_node@[j] as nat == hex_value(
                        #[trigger] text.subrange(node_pos(j), node_pos(j) + 2),
                    ),
            decreases 8 - k,
        {
            let pos: usize = if k < 2 {
                19 + 2 * k
            } else {
                20 + 2 * k
            };
            match parse_hex(bytes, pos, pos + 2, Ghost(text)) {
                Some(v) => {
                    proof {
                        lemma_hex_value_bound(text.subrange(pos as int, pos + 2));
                        reveal_with_fuel(pow16, 3);
                    }
                    clock_seq_and_node[k] = v as u8;
                },
                None => {
                    proof {
                        lemma_segment_not_hex(text, pos as int, pos + 2);
                    }
                    return Err(TipcError::InvalidData);
                },
            }
            k = k + 1;
        }
        proof {
            lemma_hex_value_bound(text.subrange(0, 8));
            lemma_hex_value_bound(text.subrange(9, 13));
            lemma_hex_value_bound(text.subrange(14, 18));
            assert forall|i: int| 0 <= i < 36 && !is_hyphen_pos(i) implies (#[trigger] hex_digit(
                text[i],
            )) is Some by {
                {
                    if i < 8 {
                        lemma_segment_hex(text, 0, 8, i);
                    } else if i < 13 {
                        lemma_segment_hex(text, 9, 13, i);
                    } else if i < 18 {
                        lemma_segment_hex(text, 14, 18, i);
                    } else {
                        let j: int = if i < 23 {
                            (i - 19) / 2
                        } else {
                            (i - 20) / 2
                        };
                        assert(all_hex(text.subrange(node_pos(j), node_pos(j) + 2)));
                        lemma_segment_hex(text, node_pos(j), node_pos(j) + 2, i);
                    }
                }
            }
        }
        let u = Uuid {
            time_low: time_low as u32,
            time_mid: time_mid as u16,
            time_hi_and_version: time_hi_and_version as u16,
            clock_seq_and_node,
        };
        assert(u@.clock_seq_and_node =~= parsed(text).clock_seq_and_node);
        Ok(u)
    }

    /// The canonical lower-case text of the identifier.
    pub fn to_string(&self) -> (r: String)
        ensures
            r@ == formatted(self@),
    {
        let mut out = String::new();
        push_hex(&mut out, self.time_low as u64, 8);
        out.append("-");
        push_hex(&mut out, self.time_mid as u64, 4);
        out.append("-");
        push_hex(&mut out, self.time_hi_and_version as u64, 4);
        out.append("-");
        push_hex(&mut out, self.clock_seq_and_node[0] as u64, 2);
        push_hex(&mut out, self.clock_seq_and_node[1] as u64, 2);
        out.append("-");
        push_hex(&mut out, self.clock_seq_and_node[2] as u64, 2);
        push_hex(&mut out, self.clock_seq_and_node[3] as u64, 2);
        push_hex(&mut out, self.clock_seq_and_node[4] as u64, 2);
        push_hex(&mut out, self.clock_seq_and_node[5] as u64, 2);
        push_hex(&mut out, self.clock_seq_and_node[6] as u64, 2);
        push_hex(&mut out, self.clock_seq_and_node[7] as u64, 2);
        proof {
            reveal_strlit("-");
            assert("-"@ =~= seq!['-']);
            assert(out@ =~= formatted(self@));
        }
        out
    }
}

/// No character lies below the first one.
proof fn lemma_char_floor(c: char)
    ensures
        '\0' <= c,
{
}

/// Every position of a segment of digits holds a digit.
proof fn lemma_segment_hex(text: Seq<char>, start: int, end: int, i: int)
    requires
        0 <= start <= i < end <= text.len(),
        all_hex(text.subrange(start, end)),
    ensures
        hex_digit(text[i]) is Some,
{
    let seg = text.subrange(start, end);
    assert(seg[i - start] == text[i]);
    assert(hex_digit(seg[i - start]) is Some);
}

/// A segment with a character that is no digit makes the text not canonical.
proof fn lemma_segment_not_hex(text: Seq<char>, start: int, end: int)
    requires
        0 <= start <= end <= 36,
        text.len() == 36,
        forall|i: int| start <= i < end ==> !is_hyphen_pos(i),
        !all_hex(text.subrange(start, end)),
    ensures
        !is_canonical(text),
{
    let seg = text.subrange(start, end);
    let i = choose|i: int| 0 <= i < seg.len() && !((#[trigger] hex_digit(seg[i])) is Some);
    assert(seg[i] == text[start + i]);
    assert(!is_hyphen_pos(start + i));
    assert(!(hex_digit(text[start + i]) is Some));
}


/// A run of digits of a canonical text reads as a number that writes the run back.
proof fn lemma_segment_roundtrip(s: Seq<char>, start: int, end: int)
    requires
        is_canonical(s),
        0 <= start <= end <= 36,
        end - start <= 8,
        forall|i: int| start <= i < end ==> !is_hyphen_pos(i),
    ensures
        all_hex(s.subrange(start, end)),
        hex_value(s.subrange(start, end)) < pow16((end - start) as nat),
        hex_text(hex_value(s.subrange(start, end)), (end - start) as nat) == lowercase(
            s.subrange(start, end),
        ),
{
    let seg = s.subrange(start, end);
    assert forall|i: int| 0 <= i < seg.len() implies (#[trigger] hex_digit(seg[i])) is Some by {
        assert(seg[i] == s[start + i]);
        assert(!is_hyphen_pos(start + i));
        assert(hex_digit(s[start + i]) is Some);
    }
    lemma_hex_value_bound(seg);
    lemma_hex_text_of_value(seg);
}

/// Parsing a canonical text and writing the identifier gives the text back,
/// with the letters in lower case.
pub proof fn lemma_parse_then_format(s: Seq<char>)
    requires
        is_canonical(s),
    ensures
        formatted(parsed(s)) == lowercase(s),
{
    lemma_pow16_values();
    lemma_segment_roundtrip(s, 0, 8);
    lemma_segment_roundtrip(s, 9, 13);
    lemma_segment_roundtrip(s, 14, 18);
    lemma_segment_roundtrip(s, 19, 21);
    lemma_segment_roundtrip(s, 21, 23);
    lemma_segment_roundtrip(s, 24, 26);
    lemma_segment_roundtrip(s, 26, 28);
    lemma_segment_roundtrip(s, 28, 30);
    lemma_segment_roundtrip(s, 30, 32);
    lemma_segment_roundtrip(s, 32, 34);
    lemma_segment_roundtrip(s, 34, 36);
    let v = parsed(s);
    let n = v.clock_seq_and_node;
    assert(n[0] as nat == hex_value(s.subrange(19, 21)));
    assert(n[1] as nat == hex_value(s.subrange(21, 23)));
    assert(n[2] as nat == hex_value(s.subrange(24, 26)));
    assert(n[3] as nat == hex_value(s.subrange(26, 28)));
    assert(n[4] as nat == hex_value(s.subrange(28, 30)));
    assert(n[5] as nat == hex_value(s.subrange(30, 32)));
    assert(n[6] as nat == hex_value(s.subrange(32, 34)));
    assert(n[7] as nat == hex_value(s.subrange(34, 36)));
    assert(formatted(v) =~= lowercase(s));
}

/// Writing an identifier gives a canonical text, and parsing that text gives
/// the identifier back.
pub proof fn lemma_format_then_parse(v: UuidValue)
    requires
        v.clock_seq_and_node.len() == 8,
    ensures
        is_canonical(formatted(v)),
        lowercase(formatted(v)) == formatted(v),
        parsed(formatted(v)) == v,
{
    let n = v.clock_seq_and_node;
    let t = formatted(v);
    lemma_pow16_values();
    lemma_hex_text_shape(v.time_low as nat, 8);
    lemma_hex_text_shape(v.time_mid as nat, 4);
    lemma_hex_text_shape(v.time_hi_and_version as nat, 4);
    lemma_hex_value_of_text(v.time_low as nat, 8);
    lemma_hex_value_of_text(v.time_mid as nat, 4);
    lemma_hex_value_of_text(v.time_hi_and_version as nat, 4);
    assert forall|k: int| 0 <= k < 8 implies (#[trigger] hex_text(n[k] as nat, 2)).len() == 2
        && all_hex(hex_text(n[k] as nat, 2)) && hex_value(hex_text(n[k] as nat, 2)) == n[k] by {
        lemma_hex_text_shape(n[k] as nat, 2);
        lemma_hex_value_of_text(n[k] as nat, 2);
    }
    assert(hex_text(n[0] as nat, 2).len() == 2 && hex_text(n[1] as nat, 2).len() == 2 && hex_text(
        n[2] as nat,
        2,
    ).len() == 2 && hex_text(n[3] as nat, 2).len() == 2 && hex_text(n[4] as nat, 2).len() == 2
        && hex_text(n[5] as nat, 2).len() == 2 && hex_text(n[6] as nat, 2).len() == 2 && hex_text(
        n[7] as nat,
        2,
    ).len() == 2);
    assert(t.len() == 36);
    assert(t.subrange(0, 8) =~= hex_text(v.time_low as nat, 8));
    assert(t.subrange(9, 13) =~= hex_text(v.time_mid as nat, 4));
    assert(t.subrange(14, 18) =~= hex_text(v.time_hi_and_version as nat, 4));
    assert(t.subrange(19, 21) =~= hex_text(n[0] as nat, 2));
    assert(t.subrange(21, 23) =~= hex_text(n[1] as nat, 2));
    assert(t.subrange(24, 26) =~= hex_text(n[2] as nat, 2));
    assert(t.subrange(26, 28) =~= hex_text(n[3] as nat, 2));
    assert(t.subrange(28, 30) =~= hex_text(n[4] as nat, 2));
    assert(t.subrange(30, 32) =~= hex_text(n[5] as nat, 2));
    assert(t.subrange(32, 34) =~= hex_text(n[6] as nat, 2));
    assert(t.subrange(34, 36) =~= hex_text(n[7] as nat, 2));
    assert forall|i: int| 0 <= i < 36 && !is_hyphen_pos(i) implies (#[trigger] hex_digit(
        t[i],
    )) is Some by {
        if i < 8 {
            lemma_segment_hex(t, 0, 8, i);
        } else if i < 13 {
            lemma_segment_hex(t, 9, 13, i);
        } else if i < 18 {
            lemma_segment_hex(t, 14, 18, i);
        } else {
            let j: int = if i < 23 {
                (i - 19) / 2
            } else {
                (i - 20) / 2
            };
            lemma_segment_hex(t, node_pos(j), node_pos(j) + 2, i);
        }
    }
    assert(lowercase(t) =~= t) by {
        assert forall|i: int| 0 <= i < 36 implies lower_char(t[i]) == t[i] by {
            if is_hyphen_pos(i) {
            } else if i < 8 {
                lemma_hex_text_lower(v.time_low as nat, 8, i);
            } else if i < 13 {
                lemma_hex_text_lower(v.time_mid as nat, 4, i - 9);
            } else if i < 18 {
                lemma_hex_text_lower(v.time_hi_and_version as nat, 4, i - 14);
            } else {
                let j: int = if i < 23 {
                    (i - 19) / 2
                } else {
                    (i - 20) / 2
                };
                lemma_hex_text_lower(n[j] as nat, 2, i - node_pos(j));
                assert(t[i] == hex_text(n[j] as nat, 2)[i - node_pos(j)]);
            }
        }
    }
    assert(parsed(t).clock_seq_and_node =~= n) by {
        assert forall|k: int| 0 <= k < 8 implies parsed(t).clock_seq_and_node[k] == n[k] by {
            assert(t.subrange(node_pos(k), node_pos(k) + 2) =~= hex_text(n[k] as nat, 2));
        }
    }
}

/// A digit written by `hex_text` is not an upper-case letter.
proof fn lemma_hex_text_lower(n: nat, width: nat, k: int)
    requires
        0 <= k < width,
    ensures
        lower_char(hex_text(n, width)[k]) == hex_text(n, width)[k],
{
    lemma_hex_text_shape(n, width);
    assert(lowercase(hex_text(n, width))[k] == hex_text(n, width)[k]);
}

} // verus!
