//! Depot keys and AES-128-CTR decryption of manifests and chunks.
use std::collections::HashMap;
use vstd::prelude::*;

use aes::cipher::{KeyIvInit, StreamCipher};

use crate::manifest::hexcodec::{
    hex_encode, hex_lower, hex_lower_char, hex_pair, hex_pairs, law_hex_roundtrip,
    lemma_hex_encode_push, lemma_hex_encode_shape, prepend_bytes, read_hex, strip_separators,
    width_of, HexRead,
};
use crate::text::{
    decimal, is_whitespace_spec, lemma_decimal_digits, lemma_first_index_found,
    lemma_line_state_no_newline, lemma_parse_decimal, chars_of, find_char, first_index, lines, lines_of, parse_u32, parse_u32_spec, push_char, slice_chars,
    split_once, string_from_chars, trim, trim_chars,
};

verus! {

broadcast use vstd::std_specs::hash::group_hash_axioms;

// ---------------------------------------------------------------------------
// The stream cipher
// ---------------------------------------------------------------------------

/// The keystream byte at `position` of AES-128 in CTR mode with a 128-bit
/// little-endian counter, for a 16-byte key and a 16-byte initial counter
/// block.
pub uninterp spec fn aes128_ctr_keystream(key: Seq<u8>, iv: Seq<u8>, position: int) -> u8;

/// `data` with the AES-128-CTR keystream for `key` and `iv` applied.
pub open spec fn ctr_apply(key: Seq<u8>, iv: Seq<u8>, data: Seq<u8>) -> Seq<u8> {
    Seq::new(data.len(), |i: int| data[i] ^ aes128_ctr_keystream(key, iv, i))
}

/// Applies the keystream of `ctr::Ctr128LE<aes::Aes128>` (built with
/// `KeyIvInit::new` from `key` and `iv`) to a copy of `data` with
/// `StreamCipher::apply_keystream`. The cipher crate documents that call as
/// XOR-ing the generated keystream into the buffer; each keystream byte is
/// named by `aes128_ctr_keystream` from the key, the counter block and its
/// position. A fresh 128-bit counter has no keystream limit, so the call does
/// not panic; `GenericArray::from_slice` panics unless both slices hold 16
/// bytes, which `requires` states.
#[verifier::external_body]
fn aes128_ctr_apply(key: &[u8], iv: &[u8], data: &[u8]) -> (out: Vec<u8>)
    requires
        key@.len() == 16,
        iv@.len() == 16,
    ensures
        out@.len() == data@.len(),
        forall|i: int|
            0 <= i < data@.len() ==> out@[i] == data@[i] ^ aes128_ctr_keystream(key@, iv@, i),
{
    let mut cipher = ctr::Ctr128LE::<aes::Aes128>::new(
        ctr::cipher::generic_array::GenericArray::from_slice(key),
        ctr::cipher::generic_array::GenericArray::from_slice(iv),
    );
    let mut buf = data.to_vec();
    cipher.apply_keystream(&mut buf);
    buf
}

proof fn lemma_xor_twice(x: u8, k: u8)
    ensures
        (x ^ k) ^ k == x,
{
    assert((x ^ k) ^ k == x) by (bit_vector);
}

/// Applying the same keystream twice gives the data back: CTR decryption and
/// encryption are one operation.
pub proof fn law_decrypt_twice(key: Seq<u8>, iv: Seq<u8>, data: Seq<u8>)
    ensures
        ctr_apply(key, iv, ctr_apply(key, iv, data)) == data,
{
    let once = ctr_apply(key, iv, data);
    let twice = ctr_apply(key, iv, once);
    assert forall|i: int| 0 <= i < data.len() implies twice[i] == data[i] by {
        lemma_xor_twice(data[i], aes128_ctr_keystream(key, iv, i));
    }
    assert(twice =~= data);
}

/// The all-zero counter block that manifests are decrypted with.
pub open spec fn zero_iv() -> Seq<u8> {
    Seq::new(16, |i: int| 0u8)
}

// ---------------------------------------------------------------------------
// Errors
// ---------------------------------------------------------------------------

/// Why reading depot keys or decrypting failed.
#[derive(Debug, Clone, PartialEq, Eq)]
pub enum DecryptionError {
    /// The text before `;` on a key line is not a depot id.
    InvalidDepotId(String),
    /// A hex key has an odd number of bytes.
    InvalidHexLength,
    /// A two-byte piece of a hex key that is not a hex byte.
    InvalidHexByte(String),
    /// No key is known for the depot.
    MissingDepotKey(u32),
}

/// `r` is what reading hex text with outcome `read` returns.
pub open spec fn hex_result_matches(r: Result<Vec<u8>, DecryptionError>, read: HexRead) -> bool {
    match read {
        HexRead::Bytes(bs) => r matches Ok(v) && v@ == bs,
        HexRead::OddLength => r matches Err(DecryptionError::InvalidHexLength),
        HexRead::BadByte(piece) => r matches Err(DecryptionError::InvalidHexByte(s)) && s@
            == piece,
        HexRead::SplitsChar => false,
    }
}

// ---------------------------------------------------------------------------
// Key lines
// ---------------------------------------------------------------------------

/// What one line of `depotId;hexKey` text does.
pub enum KeyLine {
    /// Nothing: a blank line, a line without `;`, or a key that is not 16 bytes.
    Skip,
    /// The line gives a depot its key.
    Add(u32, Seq<u8>),
    /// The text before `;` is not a depot id.
    BadDepotId(Seq<char>),
    /// The key has an odd number of bytes.
    BadHexLength,
    /// A two-byte piece of the key is not a hex byte.
    BadHexByte(Seq<char>),
    /// Reading the key would split a character.
    SplitsChar,
}

/// What the key line `raw` does: it is trimmed, split at the first `;`, the
/// depot id read as a `u32`, and the key read as trimmed hex text.
pub open spec fn key_line(raw: Seq<char>) -> KeyLine {
    let line = trim(raw);
    if line.len() == 0 {
        KeyLine::Skip
    } else {
        match split_once(line, ';') {
            None => KeyLine::Skip,
            Some((id_text, key_text)) => match parse_u32_spec(id_text) {
                None => KeyLine::BadDepotId(id_text),
                Some(id) => match read_hex(trim(key_text)) {
                    HexRead::Bytes(key) => if key.len() == 16 {
                        KeyLine::Add(id, key)
                    } else {
                        KeyLine::Skip
                    },
                    HexRead::OddLength => KeyLine::BadHexLength,
                    HexRead::BadByte(piece) => KeyLine::BadHexByte(piece),
                    HexRead::SplitsChar => KeyLine::SplitsChar,
                },
            },
        }
    }
}

/// The keys after reading the lines `ls` in order into `keys`, and the line
/// outcome that stopped the reading (`Skip` when every line was read).
pub open spec fn apply_key_lines(keys: Map<u32, Seq<u8>>, ls: Seq<Seq<char>>) -> (
    Map<u32, Seq<u8>>,
    KeyLine,
)
    decreases ls.len(),
{
    if ls.len() == 0 {
        (keys, KeyLine::Skip)
    } else {
        match key_line(ls[0]) {
            KeyLine::Skip => apply_key_lines(keys, ls.drop_first()),
            KeyLine::Add(id, key) => apply_key_lines(keys.insert(id, key), ls.drop_first()),
            stop => (keys, stop),
        }
    }
}

/// `r` is what reading key text returns when reading stopped at `stop`.
pub open spec fn key_text_result_matches(r: Result<(), DecryptionError>, stop: KeyLine) -> bool {
    match stop {
        KeyLine::Skip => r is Ok,
        KeyLine::BadDepotId(text) => r matches Err(DecryptionError::InvalidDepotId(s)) && s@
            == text,
        KeyLine::BadHexLength => r matches Err(DecryptionError::InvalidHexLength),
        KeyLine::BadHexByte(piece) => r matches Err(DecryptionError::InvalidHexByte(s)) && s@
            == piece,
        _ => false,
    }
}

// ---------------------------------------------------------------------------
// The decryptor
// ---------------------------------------------------------------------------

/// The depot keys known for decryption.
pub struct ManifestDecryptor {
    depot_keys: HashMap<u32, Vec<u8>>,
}

impl View for ManifestDecryptor {
    type V = Map<u32, Seq<u8>>;

    closed spec fn view(&self) -> Map<u32, Seq<u8>> {
        self.depot_keys@.map_values(|v: Vec<u8>| v@)
    }
}

/// Every key in `keys` is 16 bytes long, as AES-128 needs.
pub open spec fn keys_are_aes128(keys: Map<u32, Seq<u8>>) -> bool {
    forall|id: u32| #[trigger] keys.contains_key(id) ==> keys[id].len() == 16
}

/// Reading key text only ever stores 16-byte keys: a decryptor whose keys
/// all suit AES-128 keeps that after reading any key text.
pub proof fn law_key_lines_keep_aes128(keys: Map<u32, Seq<u8>>, ls: Seq<Seq<char>>)
    requires
        keys_are_aes128(keys),
    ensures
        keys_are_aes128(apply_key_lines(keys, ls).0),
    decreases ls.len(),
{
    if ls.len() > 0 {
        match key_line(ls[0]) {
            KeyLine::Skip => law_key_lines_keep_aes128(keys, ls.drop_first()),
            KeyLine::Add(id, key) => {
                assert(keys_are_aes128(keys.insert(id, key)));
                law_key_lines_keep_aes128(keys.insert(id, key), ls.drop_first());
            },
            _ => {},
        }
    }
}

/// Reading the line `{id};{hex}`, where the hex text is that of a 16-byte
/// key, gives the depot that key, whatever key it had before; the other
/// depots keep theirs, and the reading succeeds.
pub proof fn law_key_line_sets_key(keys: Map<u32, Seq<u8>>, id: u32, key: Seq<u8>)
    requires
        key.len() == 16,
    ensures
        apply_key_lines(keys, lines(decimal(id as nat) + seq![';'] + hex_encode(key))).0
            == keys.insert(id, key),
        apply_key_lines(keys, lines(decimal(id as nat) + seq![';'] + hex_encode(key))).1
            == KeyLine::Skip,
        apply_key_lines(keys, lines(decimal(id as nat) + seq![';'] + hex_encode(key))).0[id]
            == key,
        forall|other: u32|
            other != id ==> apply_key_lines(
                keys,
                lines(decimal(id as nat) + seq![';'] + hex_encode(key)),
            ).0.contains_key(other) == keys.contains_key(other),
{
    let a = decimal(id as nat);
    let h = hex_encode(key);
    let line = a + seq![';'] + h;
    lemma_decimal_digits(id as nat);
    lemma_hex_encode_shape(key);
    law_hex_roundtrip(key);
    assert(h.len() == 32);
    assert forall|i: int| 0 <= i < line.len() implies #[trigger] line[i] != '\n' by {
        if i < a.len() {
            assert(line[i] == a[i]);
            assert(crate::text::is_ascii_digit(a[i]));
        } else if i > a.len() {
            assert(line[i] == h[i - a.len() - 1]);
        }
    }
    lemma_line_state_no_newline(line);
    assert(lines(line) =~= seq![line]);
    // The line holds no whitespace at either end.
    assert(line[0] == a[0]);
    assert(crate::text::is_ascii_digit(a[0]));
    assert(!is_whitespace_spec(line[0]));
    assert(crate::text::trim_start(line) == line);
    assert(line.last() == h[31]);
    assert(!is_whitespace_spec(line.last()));
    assert(trim(line) == line);
    // The first `;` follows the digits.
    assert forall|j: int| 0 <= j < a.len() implies line[j] != ';' by {
        assert(line[j] == a[j]);
        assert(crate::text::is_ascii_digit(a[j]));
    }
    lemma_first_index_found(line, ';', a.len() as int);
    assert(line.take(a.len() as int) =~= a);
    assert(line.skip(a.len() as int + 1) =~= h);
    assert(split_once(line, ';') == Some((a, h)));
    lemma_parse_decimal(id as nat, u32::MAX as nat);
    assert(parse_u32_spec(a) == Some(id));
    assert(!is_whitespace_spec(h[0]));
    assert(!is_whitespace_spec(h.last()));
    assert(crate::text::trim_start(h) == h);
    assert(trim(h) == h);
    assert(key_line(line) == KeyLine::Add(id, key));
    let ls = seq![line];
    assert(ls[0] == line);
    assert(ls.drop_first() =~= Seq::<Seq<char>>::empty());
    assert(apply_key_lines(keys.insert(id, key), ls.drop_first()) == (
        keys.insert(id, key),
        KeyLine::Skip,
    ));
    assert(apply_key_lines(keys, ls) == (keys.insert(id, key), KeyLine::Skip));
    assert(lines(line) == ls);
}

impl ManifestDecryptor {
    /// A decryptor that knows no keys.
    pub fn new() -> (d: Self)
        ensures
            d@ == Map::<u32, Seq<u8>>::empty(),
    {
        let d = ManifestDecryptor { depot_keys: HashMap::new() };
        assert(d@ =~= Map::<u32, Seq<u8>>::empty());
        d
    }

    /// Sets the key of a depot, replacing any earlier one.
    pub fn add_depot_key(&mut self, depot_id: u32, key: Vec<u8>)
        ensures
            final(self)@ == old(self)@.insert(depot_id, key@),
    {
        let ghost k = key@;
        self.depot_keys.insert(depot_id, key);
        assert(self@ =~= old(self)@.insert(depot_id, k));
    }

    /// The key of a depot, if one is known.
    pub fn get_depot_key(&self, depot_id: u32) -> (r: Option<&Vec<u8>>)
        ensures
            r is Some <==> self@.contains_key(depot_id),
            r matches Some(k) ==> k@ == self@[depot_id],
    {
        self.depot_keys.get(&depot_id)
    }

    /// Reads hex text into bytes: spaces and hyphens are dropped, the text
    /// must have an even number of bytes, and every two bytes are read as
    /// `u8::from_str_radix(pair, 16)`.
    pub fn hex_to_bytes(hex: &str) -> (r: Result<Vec<u8>, DecryptionError>)
        requires
            read_hex(hex@) != HexRead::SplitsChar,
        ensures
            hex_result_matches(r, read_hex(hex@)),
    {
        let cs = chars_of(hex);
        let (f, odd) = strip_separators(cs.as_slice());
        assert(read_hex(hex@) == if odd {
            HexRead::OddLength
        } else {
            hex_pairs(f@)
        });
        if odd {
            return Err(DecryptionError::InvalidHexLength);
        }
        let ghost whole = hex_pairs(f@);
        let mut out: Vec<u8> = Vec::new();
        let mut i: usize = 0;
        assert(f@.skip(0) =~= f@);
        assert(out@ + Seq::<u8>::empty() =~= out@);
        while i < f.len()
            invariant
                i <= f.len(),
                whole == hex_pairs(f@),
                read_hex(hex@) == whole,
                whole == prepend_bytes(out@, hex_pairs(f@.skip(i as int))),
                whole != HexRead::SplitsChar,
            decreases f.len() - i,
        {
            let c0 = f[i];
            let ghost rest = f@.skip(i as int);
            assert(rest[0] == c0);
            if (c0 as u32) < 0x80 {
                if i + 1 >= f.len() || (f[i + 1] as u32) >= 0x80 {
                    assert(hex_pairs(rest) == HexRead::SplitsChar);
                    assert(false);
                    return Err(DecryptionError::InvalidHexLength);
                }
                let c1 = f[i + 1];
                assert(rest[1] == c1);
                match hex_pair(c0, c1) {
                    Some(b) => {
                        assert(rest.skip(2) =~= f@.skip(i + 2));
                        let ghost before = out@;
                        out.push(b);
                        proof {
                            let tail = hex_pairs(f@.skip(i + 2));
                            match tail {
                                HexRead::Bytes(t) => {
                                    assert(before + (seq![b] + t) =~= out@ + t);
                                },
                                _ => {},
                            }
                        }
                        i = i + 2;
                    },
                    None => {
                        let piece = slice_chars(f.as_slice(), i, i + 2);
                        assert(piece@ =~= rest.take(2));
                        assert(hex_pairs(rest) == HexRead::BadByte(rest.take(2)));
                        assert(whole == HexRead::BadByte(piece@));
                        return Err(DecryptionError::InvalidHexByte(string_from_chars(piece.as_slice())));
                    },
                }
            } else if width_of(c0) == 2 {
                let piece = slice_chars(f.as_slice(), i, i + 1);
                assert(piece@ =~= rest.take(1));
                assert(hex_pairs(rest) == HexRead::BadByte(rest.take(1)));
                assert(whole == HexRead::BadByte(piece@));
                return Err(DecryptionError::InvalidHexByte(string_from_chars(piece.as_slice())));
            } else {
                assert(hex_pairs(rest) == HexRead::SplitsChar);
                assert(false);
                return Err(DecryptionError::InvalidHexLength);
            }
        }
        assert(f@.skip(i as int) =~= Seq::<char>::empty());
        assert(out@ + Seq::<u8>::empty() =~= out@);
        Ok(out)
    }

    /// Whether reading `hex` as `hex_to_bytes` does would cut a character
    /// in two, which `hex_to_bytes` does not accept.
    pub fn hex_splits_char(hex: &str) -> (b: bool)
        ensures
            b == (read_hex(hex@) == HexRead::SplitsChar),
    {
        let cs = chars_of(hex);
        let (f, odd) = strip_separators(cs.as_slice());
        if odd {
            return false;
        }
        let mut i: usize = 0;
        assert(f@.skip(0) =~= f@);
        while i < f.len()
            invariant
                i <= f.len(),
                read_hex(hex@) == hex_pairs(f@),
                (hex_pairs(f@) == HexRead::SplitsChar) == (hex_pairs(f@.skip(i as int))
                    == HexRead::SplitsChar),
            decreases f.len() - i,
        {
            let c0 = f[i];
            let ghost rest = f@.skip(i as int);
            assert(rest[0] == c0);
            if (c0 as u32) < 0x80 {
                if i + 1 >= f.len() || (f[i + 1] as u32) >= 0x80 {
                    return true;
                }
                assert(rest[1] == f[i + 1]);
                match hex_pair(c0, f[i + 1]) {
                    Some(_) => {
                        assert(rest.skip(2) =~= f@.skip(i + 2));
                        i = i + 2;
                    },
                    None => {
                        return false;
                    },
                }
            } else {
                return width_of(c0) != 2;
            }
        }
        assert(f@.skip(i as int) =~= Seq::<char>::empty());
        false
    }

    /// The lowercase hex text of `bytes`, two digits per byte.
    pub fn bytes_to_hex(bytes: &[u8]) -> (s: String)
        ensures
            s@ == hex_encode(bytes@),
    {
        let mut s = String::new();
        let mut i: usize = 0;
        while i < bytes.len()
            invariant
                i <= bytes.len(),
                s@ == hex_encode(bytes@.take(i as int)),
            decreases bytes.len() - i,
        {
            let b = bytes[i];
            push_char(&mut s, hex_lower_char(b / 16));
            push_char(&mut s, hex_lower_char(b % 16));
            proof {
                lemma_hex_encode_push(bytes@.take(i as int), b);
                assert(bytes@.take(i + 1) =~= bytes@.take(i as int).push(b));
                assert(s@ =~= hex_encode(bytes@.take(i as int)) + seq![
                    hex_lower((b / 16) as nat),
                    hex_lower((b % 16) as nat),
                ]);
            }
            i = i + 1;
        }
        assert(bytes@.take(bytes.len() as int) =~= bytes@);
        s
    }

    /// Reads `depotId;hexKey` lines into the known keys. Each line is
    /// trimmed; blank lines, lines without `;` and keys that are not 16 bytes
    /// are passed over; a bad depot id or bad hex stops the reading with an
    /// error, keeping the keys read before it.
    pub fn add_depot_keys_from_string(&mut self, keys_str: &str) -> (r: Result<
        (),
        DecryptionError,
    >)
        requires
            apply_key_lines(old(self)@, lines(keys_str@)).1 != KeyLine::SplitsChar,
        ensures
            final(self)@ == apply_key_lines(old(self)@, lines(keys_str@)).0,
            key_text_result_matches(r, apply_key_lines(old(self)@, lines(keys_str@)).1),
    {
        let cs = chars_of(keys_str);
        let ls = lines_of(cs.as_slice());
        let ghost all = lines(keys_str@);
        let ghost goal = apply_key_lines(self@, all);
        let mut j: usize = 0;
        assert(all.skip(0) =~= all);
        while j < ls.len()
            invariant
                j <= ls.len(),
                ls@.len() == all.len(),
                forall|k: int| 0 <= k < ls@.len() ==> (#[trigger] ls@[k])@ == all[k],
                all == lines(keys_str@),
                goal == apply_key_lines(old(self)@, all),
                apply_key_lines(self@, all.skip(j as int)) == goal,
                goal.1 != KeyLine::SplitsChar,
            decreases ls.len() - j,
        {
            let ghost rest = all.skip(j as int);
            assert(rest[0] == all[j as int]);
            assert(rest.drop_first() =~= all.skip(j + 1));
            let raw: &Vec<char> = &ls[j];
            let line = trim_chars(raw.as_slice());
            if line.len() > 0 {
                match find_char(line.as_slice(), ';') {
                    None => {},
                    Some(semi) => {
                        let id_text = slice_chars(line.as_slice(), 0, semi);
                        let key_text = slice_chars(line.as_slice(), semi + 1, line.len());
                        assert(id_text@ =~= line@.take(semi as int));
                        assert(key_text@ =~= line@.skip(semi + 1));
                        let id_string = string_from_chars(id_text.as_slice());
                        match parse_u32(id_string.as_str()) {
                            None => {
                                assert(first_index(line@, ';') == Some(semi as nat));
                                assert(split_once(line@, ';') == Some((id_text@, key_text@)));
                                assert(key_line(rest[0]) == KeyLine::BadDepotId(id_text@));
                                return Err(DecryptionError::InvalidDepotId(id_string));
                            },
                            Some(depot_id) => {
                                let key_trimmed = trim_chars(key_text.as_slice());
                                let key_string = string_from_chars(key_trimmed.as_slice());
                                match Self::hex_to_bytes(key_string.as_str()) {
                                    Err(e) => {
                                        return Err(e);
                                    },
                                    Ok(key) => {
                                        if key.len() == 16 {
                                            self.add_depot_key(depot_id, key);
                                        }
                                    },
                                }
                            },
                        }
                    },
                }
            }
            j = j + 1;
        }
        Ok(())
    }

    /// Whether reading `keys_str` as `add_depot_keys_from_string` does would
    /// stop at a key whose hex text cuts a character in two, which
    /// `add_depot_keys_from_string` does not accept.
    pub fn key_text_splits_char(&self, keys_str: &str) -> (b: bool)
        ensures
            b == (apply_key_lines(self@, lines(keys_str@)).1 == KeyLine::SplitsChar),
    {
        let cs = chars_of(keys_str);
        let ls = lines_of(cs.as_slice());
        let ghost all = lines(keys_str@);
        let ghost goal = apply_key_lines(self@, all).1;
        let ghost mut keys = self@;
        let mut j: usize = 0;
        assert(all.skip(0) =~= all);
        while j < ls.len()
            invariant
                j <= ls.len(),
                ls@.len() == all.len(),
                forall|k: int| 0 <= k < ls@.len() ==> (#[trigger] ls@[k])@ == all[k],
                all == lines(keys_str@),
                goal == apply_key_lines(self@, all).1,
                apply_key_lines(keys, all.skip(j as int)).1 == goal,
            decreases ls.len() - j,
        {
            let ghost rest = all.skip(j as int);
            assert(rest[0] == all[j as int]);
            assert(rest.drop_first() =~= all.skip(j + 1));
            let raw: &Vec<char> = &ls[j];
            let line = trim_chars(raw.as_slice());
            if line.len() > 0 {
                match find_char(line.as_slice(), ';') {
                    None => {},
                    Some(semi) => {
                        let id_text = slice_chars(line.as_slice(), 0, semi);
                        let key_text = slice_chars(line.as_slice(), semi + 1, line.len());
                        assert(id_text@ =~= line@.take(semi as int));
                        assert(key_text@ =~= line@.skip(semi + 1));
                        assert(split_once(line@, ';') == Some((id_text@, key_text@)));
                        let id_string = string_from_chars(id_text.as_slice());
                        match parse_u32(id_string.as_str()) {
                            None => {
                                return false;
                            },
                            Some(depot_id) => {
                                let key_trimmed = trim_chars(key_text.as_slice());
                                let key_string = string_from_chars(key_trimmed.as_slice());
                                if Self::hex_splits_char(key_string.as_str()) {
                                    return true;
                                }
                                match Self::hex_to_bytes(key_string.as_str()) {
                                    Err(_) => {
                                        return false;
                                    },
                                    Ok(key) => {
                                        if key.len() == 16 {
                                            proof {
                                                keys = keys.insert(depot_id, key@);
                                            }
                                        }
                                    },
                                }
                            },
                        }
                    },
                }
            }
            j = j + 1;
        }
        assert(all.skip(j as int) =~= Seq::<Seq<char>>::empty());
        false
    }

    /// Decrypts a manifest with its depot's key and an all-zero counter block.
    pub fn decrypt_manifest(&self, depot_id: u32, encrypted_data: &[u8]) -> (r: Result<
        Vec<u8>,
        DecryptionError,
    >)
        requires
            self@.contains_key(depot_id) ==> self@[depot_id].len() == 16,
        ensures
            !self@.contains_key(depot_id) ==> r == Err::<Vec<u8>, DecryptionError>(
                DecryptionError::MissingDepotKey(depot_id),
            ),
            self@.contains_key(depot_id) ==> (r matches Ok(v) && v@ == ctr_apply(
                self@[depot_id],
                zero_iv(),
                encrypted_data@,
            )),
    {
        match self.depot_keys.get(&depot_id) {
            None => Err(DecryptionError::MissingDepotKey(depot_id)),
            Some(key) => {
                let iv = [0u8; 16];
                assert(iv@ =~= zero_iv());
                let out = aes128_ctr_apply(key.as_slice(), iv.as_slice(), encrypted_data);
                assert(out@ =~= ctr_apply(key@, iv@, encrypted_data@));
                Ok(out)
            },
        }
    }

    /// Decrypts a chunk with its depot's key and the counter block `iv`.
    pub fn decrypt_chunk(&self, depot_id: u32, chunk_data: &[u8], iv: &[u8; 16]) -> (r: Result<
        Vec<u8>,
        DecryptionError,
    >)
        requires
            self@.contains_key(depot_id) ==> self@[depot_id].len() == 16,
        ensures
            !self@.contains_key(depot_id) ==> r == Err::<Vec<u8>, DecryptionError>(
                DecryptionError::MissingDepotKey(depot_id),
            ),
            self@.contains_key(depot_id) ==> (r matches Ok(v) && v@ == ctr_apply(
                self@[depot_id],
                iv@,
                chunk_data@,
            )),
    {
        match self.depot_keys.get(&depot_id) {
            None => Err(DecryptionError::MissingDepotKey(depot_id)),
            Some(key) => {
                let out = aes128_ctr_apply(key.as_slice(), iv.as_slice(), chunk_data);
                assert(out@ =~= ctr_apply(key@, iv@, chunk_data@));
                Ok(out)
            },
        }
    }
}

impl Default for ManifestDecryptor {
    /// A decryptor that knows no keys.
    fn default() -> (d: Self)
        ensures
            d@ == Map::<u32, Seq<u8>>::empty(),
    {
        Self::new()
    }
}

} // verus!
