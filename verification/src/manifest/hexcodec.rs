//! Hexadecimal text for depot keys: what reading a hex string gives, byte
//! pair by byte pair, and the lowercase text of a byte sequence.
use vstd::prelude::*;

verus! {

/// The number of bytes that `c` takes in UTF-8.
pub open spec fn utf8_width(c: char) -> nat {
    let u = c as u32;
    if u < 0x80 {
        1
    } else if u < 0x800 {
        2
    } else if u < 0x10000 {
        3
    } else {
        4
    }
}

/// The UTF-8 length in bytes of a character sequence (`str::len`).
pub open spec fn utf8_len(s: Seq<char>) -> nat
    decreases s.len(),
{
    if s.len() == 0 {
        0
    } else {
        utf8_len(s.drop_last()) + utf8_width(s.last())
    }
}

pub open spec fn is_ascii_char(c: char) -> bool {
    (c as u32) < 0x80
}

/// `s` with every space and hyphen removed.
pub open spec fn strip_hex_separators(s: Seq<char>) -> Seq<char>
    decreases s.len(),
{
    if s.len() == 0 {
        s
    } else if s.last() == ' ' || s.last() == '-' {
        strip_hex_separators(s.drop_last())
    } else {
        strip_hex_separators(s.drop_last()).push(s.last())
    }
}

/// `char::to_digit(16)`.
pub open spec fn hex_digit_value(c: char) -> Option<u8> {
    if '0' <= c && c <= '9' {
        Some((c as int - 48) as u8)
    } else if 'a' <= c && c <= 'f' {
        Some((c as int - 87) as u8)
    } else if 'A' <= c && c <= 'F' {
        Some((c as int - 55) as u8)
    } else {
        None
    }
}

/// `u8::from_str_radix(pair, 16)` for two ASCII characters: a leading `+`
/// is taken as a sign, so `+f` reads as 15.
pub open spec fn hex_pair_value(c0: char, c1: char) -> Option<u8> {
    if c0 == '+' {
        hex_digit_value(c1)
    } else {
        match (hex_digit_value(c0), hex_digit_value(c1)) {
            (Some(a), Some(b)) => Some((a * 16 + b) as u8),
            _ => None,
        }
    }
}

/// What reading hex text gives.
pub enum HexRead {
    /// The bytes that the text denotes.
    Bytes(Seq<u8>),
    /// The text has an odd number of bytes.
    OddLength,
    /// The two-byte piece of text that is not a hex byte.
    BadByte(Seq<char>),
    /// Cutting the text into two-byte pieces would split a character.
    SplitsChar,
}

/// `r` with `bs` in front of the bytes it read.
pub open spec fn prepend_bytes(bs: Seq<u8>, r: HexRead) -> HexRead {
    match r {
        HexRead::Bytes(rest) => HexRead::Bytes(bs + rest),
        other => other,
    }
}

/// Reading text of even byte length two bytes at a time, from the front.
pub open spec fn hex_pairs(cs: Seq<char>) -> HexRead
    decreases cs.len(),
{
    if cs.len() == 0 {
        HexRead::Bytes(Seq::empty())
    } else if is_ascii_char(cs[0]) {
        if cs.len() < 2 || !is_ascii_char(cs[1]) {
            HexRead::SplitsChar
        } else {
            match hex_pair_value(cs[0], cs[1]) {
                Some(b) => prepend_bytes(seq![b], hex_pairs(cs.skip(2))),
                None => HexRead::BadByte(cs.take(2)),
            }
        }
    } else if utf8_width(cs[0]) == 2 {
        HexRead::BadByte(cs.take(1))
    } else {
        HexRead::SplitsChar
    }
}

/// Reading depot-key hex text: separators dropped, the byte length must be
/// even, then every two bytes are one value.
pub open spec fn read_hex(s: Seq<char>) -> HexRead {
    let f = strip_hex_separators(s);
    if utf8_len(f) % 2 != 0 {
        HexRead::OddLength
    } else {
        hex_pairs(f)
    }
}

/// The lowercase hex digit for `d`, which is below sixteen.
pub open spec fn hex_lower(d: nat) -> char {
    if d < 10 {
        (48 + d) as char
    } else {
        (87 + d) as char
    }
}

/// The lowercase hex text of a byte sequence, two digits per byte.
pub open spec fn hex_encode(bs: Seq<u8>) -> Seq<char>
    decreases bs.len(),
{
    if bs.len() == 0 {
        Seq::empty()
    } else {
        seq![hex_lower((bs[0] / 16) as nat), hex_lower((bs[0] % 16) as nat)] + hex_encode(
            bs.drop_first(),
        )
    }
}

// ---------------------------------------------------------------------------
// Lemmas
// ---------------------------------------------------------------------------

pub proof fn lemma_hex_encode_push(bs: Seq<u8>, b: u8)
    ensures
        hex_encode(bs.push(b)) == hex_encode(bs) + seq![
            hex_lower((b / 16) as nat),
            hex_lower((b % 16) as nat),
        ],
    decreases bs.len(),
{
    if bs.len() == 0 {
        assert(bs.push(b).drop_first() =~= Seq::<u8>::empty());
        assert(hex_encode(Seq::<u8>::empty()) =~= Seq::<char>::empty());
        assert(hex_encode(bs) =~= Seq::<char>::empty());
        assert(hex_encode(bs.push(b)) =~= seq![
            hex_lower((b / 16) as nat),
            hex_lower((b % 16) as nat),
        ]);
    } else {
        lemma_hex_encode_push(bs.drop_first(), b);
        assert(bs.push(b).drop_first() =~= bs.drop_first().push(b));
        assert(hex_encode(bs.push(b)) =~= hex_encode(bs) + seq![
            hex_lower((b / 16) as nat),
            hex_lower((b % 16) as nat),
        ]);
    }
}

proof fn lemma_hex_lower_digit(d: nat)
    requires
        d < 16,
    ensures
        hex_digit_value(hex_lower(d)) == Some(d as u8),
        is_ascii_char(hex_lower(d)),
        hex_lower(d) != ' ',
        hex_lower(d) != '-',
        hex_lower(d) != '+',
        utf8_width(hex_lower(d)) == 1,
        ('0' <= hex_lower(d) && hex_lower(d) <= '9') || ('a' <= hex_lower(d) && hex_lower(d)
            <= 'f'),
{
    if d < 10 {
        assert(hex_lower(d) as int == 48 + d);
    } else {
        assert(hex_lower(d) as int == 87 + d);
    }
}

pub proof fn lemma_hex_encode_shape(bs: Seq<u8>)
    ensures
        hex_encode(bs).len() == 2 * bs.len(),
        forall|i: int|
            0 <= i < hex_encode(bs).len() ==> {
                &&& is_ascii_char(#[trigger] hex_encode(bs)[i])
                &&& hex_encode(bs)[i] != ' '
                &&& hex_encode(bs)[i] != '-'
                &&& utf8_width(hex_encode(bs)[i]) == 1
                &&& ('0' <= hex_encode(bs)[i] && hex_encode(bs)[i] <= '9') || ('a'
                    <= hex_encode(bs)[i] && hex_encode(bs)[i] <= 'f')
            },
    decreases bs.len(),
{
    if bs.len() > 0 {
        lemma_hex_encode_shape(bs.drop_first());
        lemma_hex_lower_digit((bs[0] / 16) as nat);
        lemma_hex_lower_digit((bs[0] % 16) as nat);
        let e = hex_encode(bs);
        let rest = hex_encode(bs.drop_first());
        assert forall|i: int| 0 <= i < e.len() implies {
            &&& is_ascii_char(#[trigger] e[i])
            &&& e[i] != ' '
            &&& e[i] != '-'
            &&& utf8_width(e[i]) == 1
            &&& ('0' <= e[i] && e[i] <= '9') || ('a' <= e[i] && e[i] <= 'f')
        } by {
            if i >= 2 {
                assert(e[i] == rest[i - 2]);
            }
        }
    }
}

proof fn lemma_strip_identity(s: Seq<char>)
    requires
        forall|i: int| 0 <= i < s.len() ==> #[trigger] s[i] != ' ' && s[i] != '-',
    ensures
        strip_hex_separators(s) == s,
    decreases s.len(),
{
    if s.len() > 0 {
        lemma_strip_identity(s.drop_last());
        assert(s.drop_last().push(s.last()) =~= s);
    }
}

proof fn lemma_utf8_len_ascii(s: Seq<char>)
    requires
        forall|i: int| 0 <= i < s.len() ==> utf8_width(#[trigger] s[i]) == 1,
    ensures
        utf8_len(s) == s.len(),
    decreases s.len(),
{
    if s.len() > 0 {
        lemma_utf8_len_ascii(s.drop_last());
    }
}

proof fn lemma_hex_pairs_encode(bs: Seq<u8>)
    ensures
        hex_pairs(hex_encode(bs)) == HexRead::Bytes(bs),
    decreases bs.len(),
{
    if bs.len() > 0 {
        let b = bs[0];
        let hi = (b / 16) as nat;
        let lo = (b % 16) as nat;
        lemma_hex_lower_digit(hi);
        lemma_hex_lower_digit(lo);
        lemma_hex_pairs_encode(bs.drop_first());
        let e = hex_encode(bs);
        let rest = hex_encode(bs.drop_first());
        assert(e == seq![hex_lower(hi), hex_lower(lo)] + rest);
        assert(e.len() >= 2);
        assert(e.skip(2) =~= rest);
        assert(e[0] == hex_lower(hi));
        assert(e[1] == hex_lower(lo));
        assert(hi * 16 + lo == b) by (nonlinear_arith)
            requires
                hi == b / 16,
                lo == b % 16,
        ;
        assert(hex_digit_value(e[0]) == Some(hi as u8));
        assert(hex_digit_value(e[1]) == Some(lo as u8));
        assert(hex_pair_value(e[0], e[1]) == Some(b));
        assert(hex_pairs(rest) == HexRead::Bytes(bs.drop_first()));
        assert(seq![b] + bs.drop_first() =~= bs);
        assert(hex_pairs(e) == prepend_bytes(seq![b], hex_pairs(e.skip(2))));
    } else {
        assert(hex_encode(bs) =~= Seq::<char>::empty());
        assert(bs =~= Seq::<u8>::empty());
    }
}

/// Reading back the lowercase hex text of any bytes gives those bytes.
pub proof fn law_hex_roundtrip(bs: Seq<u8>)
    ensures
        read_hex(hex_encode(bs)) == HexRead::Bytes(bs),
{
    let e = hex_encode(bs);
    lemma_hex_encode_shape(bs);
    lemma_strip_identity(e);
    lemma_utf8_len_ascii(e);
    lemma_hex_pairs_encode(bs);
}

// ---------------------------------------------------------------------------
// Executable pieces
// ---------------------------------------------------------------------------

pub fn hex_digit(c: char) -> (r: Option<u8>)
    ensures
        r == hex_digit_value(c),
{
    if '0' <= c && c <= '9' {
        Some(((c as u32) - 48) as u8)
    } else if 'a' <= c && c <= 'f' {
        Some(((c as u32) - 87) as u8)
    } else if 'A' <= c && c <= 'F' {
        Some(((c as u32) - 55) as u8)
    } else {
        None
    }
}

pub fn hex_pair(c0: char, c1: char) -> (r: Option<u8>)
    ensures
        r == hex_pair_value(c0, c1),
{
    if c0 == '+' {
        hex_digit(c1)
    } else {
        match (hex_digit(c0), hex_digit(c1)) {
            (Some(a), Some(b)) => Some(a * 16 + b),
            _ => None,
        }
    }
}

pub fn width_of(c: char) -> (w: usize)
    ensures
        w == utf8_width(c),
{
    let u = c as u32;
    if u < 0x80 {
        1
    } else if u < 0x800 {
        2
    } else if u < 0x10000 {
        3
    } else {
        4
    }
}

/// The characters of `s` without spaces and hyphens, and whether their
/// UTF-8 length is odd.
pub fn strip_separators(s: &[char]) -> (r: (Vec<char>, bool))
    ensures
        r.0@ == strip_hex_separators(s@),
        r.1 == (utf8_len(r.0@) % 2 == 1),
{
    let mut out: Vec<char> = Vec::new();
    let mut odd = false;
    let mut i: usize = 0;
    while i < s.len()
        invariant
            i <= s.len(),
            out@ == strip_hex_separators(s@.take(i as int)),
            odd == (utf8_len(out@) % 2 == 1),
        decreases s.len() - i,
    {
        let c = s[i];
        assert(s@.take(i + 1).drop_last() =~= s@.take(i as int));
        if c != ' ' && c != '-' {
            let ghost before = out@;
            out.push(c);
            assert(out@.drop_last() =~= before);
            if width_of(c) % 2 == 1 {
                odd = !odd;
            }
        }
        i = i + 1;
    }
    assert(s@.take(s.len() as int) =~= s@);
    (out, odd)
}

/// The lowercase hex digit for `d`.
pub fn hex_lower_char(d: u8) -> (c: char)
    requires
        d < 16,
    ensures
        c == hex_lower(d as nat),
{
    if d < 10 {
        (48u8 + d) as char
    } else {
        (87u8 + d) as char
    }
}

} // verus!
