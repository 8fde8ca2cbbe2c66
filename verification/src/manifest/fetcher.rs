//! The depot keys of ManifestHub: where they are fetched from, and the
//! key file format it serves them in.
use std::collections::HashMap;
use vstd::prelude::*;

use crate::text::{
    chars_of, decimal, is_whitespace, is_whitespace_spec, parse_u32_spec, parse_unsigned_chars,
    push_char, push_decimal, push_str,
};

verus! {

broadcast use {vstd::std_specs::hash::group_hash_axioms, vstd::string::group_string_axioms};

// ---------------------------------------------------------------------------
// The key file format
// ---------------------------------------------------------------------------

/// A Unicode decimal digit (general category `Nd`, Unicode 16), which is
/// what `\d` matches in a Unicode-aware regular expression.
pub open spec fn is_decimal_number(c: char) -> bool {
    let u = c as u32;
    ||| (0x30 <= u && u <= 0x39)
    ||| (0x660 <= u && u <= 0x669)
    ||| (0x6f0 <= u && u <= 0x6f9)
    ||| (0x7c0 <= u && u <= 0x7c9)
    ||| (0x966 <= u && u <= 0x96f)
    ||| (0x9e6 <= u && u <= 0x9ef)
    ||| (0xa66 <= u && u <= 0xa6f)
    ||| (0xae6 <= u && u <= 0xaef)
    ||| (0xb66 <= u && u <= 0xb6f)
    ||| (0xbe6 <= u && u <= 0xbef)
    ||| (0xc66 <= u && u <= 0xc6f)
    ||| (0xce6 <= u && u <= 0xcef)
    ||| (0xd66 <= u && u <= 0xd6f)
    ||| (0xde6 <= u && u <= 0xdef)
    ||| (0xe50 <= u && u <= 0xe59)
    ||| (0xed0 <= u && u <= 0xed9)
    ||| (0xf20 <= u && u <= 0xf29)
    ||| (0x1040 <= u && u <= 0x1049)
    ||| (0x1090 <= u && u <= 0x1099)
    ||| (0x17e0 <= u && u <= 0x17e9)
    ||| (0x1810 <= u && u <= 0x1819)
    ||| (0x1946 <= u && u <= 0x194f)
    ||| (0x19d0 <= u && u <= 0x19d9)
    ||| (0x1a80 <= u && u <= 0x1a89)
    ||| (0x1a90 <= u && u <= 0x1a99)
    ||| (0x1b50 <= u && u <= 0x1b59)
    ||| (0x1bb0 <= u && u <= 0x1bb9)
    ||| (0x1c40 <= u && u <= 0x1c49)
    ||| (0x1c50 <= u && u <= 0x1c59)
    ||| (0xa620 <= u && u <= 0xa629)
    ||| (0xa8d0 <= u && u <= 0xa8d9)
    ||| (0xa900 <= u && u <= 0xa909)
    ||| (0xa9d0 <= u && u <= 0xa9d9)
    ||| (0xa9f0 <= u && u <= 0xa9f9)
    ||| (0xaa50 <= u && u <= 0xaa59)
    ||| (0xabf0 <= u && u <= 0xabf9)
    ||| (0xff10 <= u && u <= 0xff19)
    ||| (0x104a0 <= u && u <= 0x104a9)
    ||| (0x10d30 <= u && u <= 0x10d39)
    ||| (0x10d40 <= u && u <= 0x10d49)
    ||| (0x11066 <= u && u <= 0x1106f)
    ||| (0x110f0 <= u && u <= 0x110f9)
    ||| (0x11136 <= u && u <= 0x1113f)
    ||| (0x111d0 <= u && u <= 0x111d9)
    ||| (0x112f0 <= u && u <= 0x112f9)
    ||| (0x11450 <= u && u <= 0x11459)
    ||| (0x114d0 <= u && u <= 0x114d9)
    ||| (0x11650 <= u && u <= 0x11659)
    ||| (0x116c0 <= u && u <= 0x116c9)
    ||| (0x116d0 <= u && u <= 0x116e3)
    ||| (0x11730 <= u && u <= 0x11739)
    ||| (0x118e0 <= u && u <= 0x118e9)
    ||| (0x11950 <= u && u <= 0x11959)
    ||| (0x11bf0 <= u && u <= 0x11bf9)
    ||| (0x11c50 <= u && u <= 0x11c59)
    ||| (0x11d50 <= u && u <= 0x11d59)
    ||| (0x11da0 <= u && u <= 0x11da9)
    ||| (0x11f50 <= u && u <= 0x11f59)
    ||| (0x16130 <= u && u <= 0x16139)
    ||| (0x16a60 <= u && u <= 0x16a69)
    ||| (0x16ac0 <= u && u <= 0x16ac9)
    ||| (0x16b50 <= u && u <= 0x16b59)
    ||| (0x16d70 <= u && u <= 0x16d79)
    ||| (0x1ccf0 <= u && u <= 0x1ccf9)
    ||| (0x1d7ce <= u && u <= 0x1d7ff)
    ||| (0x1e140 <= u && u <= 0x1e149)
    ||| (0x1e2f0 <= u && u <= 0x1e2f9)
    ||| (0x1e4f0 <= u && u <= 0x1e4f9)
    ||| (0x1e5f1 <= u && u <= 0x1e5fa)
    ||| (0x1e950 <= u && u <= 0x1e959)
    ||| (0x1fbf0 <= u && u <= 0x1fbf9)
}

pub fn decimal_number(c: char) -> (b: bool)
    ensures
        b == is_decimal_number(c),
{
    let u = c as u32;
    (0x30 <= u && u <= 0x39)
        || (0x660 <= u && u <= 0x669)
        || (0x6f0 <= u && u <= 0x6f9)
        || (0x7c0 <= u && u <= 0x7c9)
        || (0x966 <= u && u <= 0x96f)
        || (0x9e6 <= u && u <= 0x9ef)
        || (0xa66 <= u && u <= 0xa6f)
        || (0xae6 <= u && u <= 0xaef)
        || (0xb66 <= u && u <= 0xb6f)
        || (0xbe6 <= u && u <= 0xbef)
        || (0xc66 <= u && u <= 0xc6f)
        || (0xce6 <= u && u <= 0xcef)
        || (0xd66 <= u && u <= 0xd6f)
        || (0xde6 <= u && u <= 0xdef)
        || (0xe50 <= u && u <= 0xe59)
        || (0xed0 <= u && u <= 0xed9)
        || (0xf20 <= u && u <= 0xf29)
        || (0x1040 <= u && u <= 0x1049)
        || (0x1090 <= u && u <= 0x1099)
        || (0x17e0 <= u && u <= 0x17e9)
        || (0x1810 <= u && u <= 0x1819)
        || (0x1946 <= u && u <= 0x194f)
        || (0x19d0 <= u && u <= 0x19d9)
        || (0x1a80 <= u && u <= 0x1a89)
        || (0x1a90 <= u && u <= 0x1a99)
        || (0x1b50 <= u && u <= 0x1b59)
        || (0x1bb0 <= u && u <= 0x1bb9)
        || (0x1c40 <= u && u <= 0x1c49)
        || (0x1c50 <= u && u <= 0x1c59)
        || (0xa620 <= u && u <= 0xa629)
        || (0xa8d0 <= u && u <= 0xa8d9)
        || (0xa900 <= u && u <= 0xa909)
        || (0xa9d0 <= u && u <= 0xa9d9)
        || (0xa9f0 <= u && u <= 0xa9f9)
        || (0xaa50 <= u && u <= 0xaa59)
        || (0xabf0 <= u && u <= 0xabf9)
        || (0xff10 <= u && u <= 0xff19)
        || (0x104a0 <= u && u <= 0x104a9)
        || (0x10d30 <= u && u <= 0x10d39)
        || (0x10d40 <= u && u <= 0x10d49)
        || (0x11066 <= u && u <= 0x1106f)
        || (0x110f0 <= u && u <= 0x110f9)
        || (0x11136 <= u && u <= 0x1113f)
        || (0x111d0 <= u && u <= 0x111d9)
        || (0x112f0 <= u && u <= 0x112f9)
        || (0x11450 <= u && u <= 0x11459)
        || (0x114d0 <= u && u <= 0x114d9)
        || (0x11650 <= u && u <= 0x11659)
        || (0x116c0 <= u && u <= 0x116c9)
        || (0x116d0 <= u && u <= 0x116e3)
        || (0x11730 <= u && u <= 0x11739)
        || (0x118e0 <= u && u <= 0x118e9)
        || (0x11950 <= u && u <= 0x11959)
        || (0x11bf0 <= u && u <= 0x11bf9)
        || (0x11c50 <= u && u <= 0x11c59)
        || (0x11d50 <= u && u <= 0x11d59)
        || (0x11da0 <= u && u <= 0x11da9)
        || (0x11f50 <= u && u <= 0x11f59)
        || (0x16130 <= u && u <= 0x16139)
        || (0x16a60 <= u && u <= 0x16a69)
        || (0x16ac0 <= u && u <= 0x16ac9)
        || (0x16b50 <= u && u <= 0x16b59)
        || (0x16d70 <= u && u <= 0x16d79)
        || (0x1ccf0 <= u && u <= 0x1ccf9)
        || (0x1d7ce <= u && u <= 0x1d7ff)
        || (0x1e140 <= u && u <= 0x1e149)
        || (0x1e2f0 <= u && u <= 0x1e2f9)
        || (0x1e4f0 <= u && u <= 0x1e4f9)
        || (0x1e5f1 <= u && u <= 0x1e5fa)
        || (0x1e950 <= u && u <= 0x1e959)
        || (0x1fbf0 <= u && u <= 0x1fbf9)
}

pub open spec fn is_hex_char(c: char) -> bool {
    ('a' <= c && c <= 'f') || ('A' <= c && c <= 'F') || ('0' <= c && c <= '9')
}

/// Where the run of characters of `s` that satisfy `p`, starting at `i`,
/// ends.
pub open spec fn run_end(s: Seq<char>, i: int, p: spec_fn(char) -> bool) -> int
    decreases s.len() - i,
{
    if 0 <= i < s.len() && p(s[i]) {
        run_end(s, i + 1, p)
    } else {
        i
    }
}

pub open spec fn digit_run_end(s: Seq<char>, i: int) -> int {
    run_end(s, i, |c: char| is_decimal_number(c))
}

pub open spec fn space_run_end(s: Seq<char>, i: int) -> int {
    run_end(s, i, |c: char| is_whitespace_spec(c))
}

pub open spec fn hex_run_end(s: Seq<char>, i: int) -> int {
    run_end(s, i, |c: char| is_hex_char(c))
}

pub open spec fn char_at(s: Seq<char>, i: int, c: char) -> bool {
    0 <= i < s.len() && s[i] == c
}

pub open spec fn decryption_key_word() -> Seq<char> {
    seq!['"', 'D', 'e', 'c', 'r', 'y', 'p', 't', 'i', 'o', 'n', 'K', 'e', 'y', '"']
}

/// A depot entry of the key file that starts at position `p`: the text
/// `"{digits}" { "DecryptionKey" "{hex}" }`, with any whitespace around the
/// braces and between the quoted words. Gives where the entry ends, its
/// digits and its hex key.
pub open spec fn entry_at(s: Seq<char>, p: int) -> Option<(int, Seq<char>, Seq<char>)> {
    let d_end = digit_run_end(s, p + 1);
    let a = space_run_end(s, d_end + 1);
    let b = space_run_end(s, a + 1);
    let w_end = b + decryption_key_word().len();
    let c = space_run_end(s, w_end);
    let h_end = hex_run_end(s, c + 1);
    let e = space_run_end(s, h_end + 1);
    if char_at(s, p, '"') && d_end > p + 1 && char_at(s, d_end, '"') && char_at(s, a, '{') && 0
        <= b && w_end <= s.len() && s.subrange(b, w_end) == decryption_key_word() && char_at(
        s,
        c,
        '"',
    ) && h_end > c + 1 && char_at(s, h_end, '"') && char_at(s, e, '}') {
        Some((e + 1, s.subrange(p + 1, d_end), s.subrange(c + 1, h_end)))
    } else {
        None
    }
}

proof fn lemma_run_end_bounds(s: Seq<char>, i: int, p: spec_fn(char) -> bool)
    requires
        0 <= i <= s.len(),
    ensures
        i <= run_end(s, i, p) <= s.len(),
        forall|k: int| i <= k < run_end(s, i, p) ==> p(#[trigger] s[k]),
        run_end(s, i, p) < s.len() ==> !p(s[run_end(s, i, p)]),
    decreases s.len() - i,
{
    if i < s.len() && p(s[i]) {
        lemma_run_end_bounds(s, i + 1, p);
    }
}

proof fn lemma_entry_end(s: Seq<char>, p: int)
    requires
        0 <= p,
        entry_at(s, p) is Some,
    ensures
        entry_at(s, p) matches Some(r) && p < r.0 <= s.len(),
{
    let d_end = digit_run_end(s, p + 1);
    let a = space_run_end(s, d_end + 1);
    let b = space_run_end(s, a + 1);
    let w_end = b + decryption_key_word().len();
    let c = space_run_end(s, w_end);
    let h_end = hex_run_end(s, c + 1);
    lemma_run_end_grows(s, d_end + 1, |c: char| is_whitespace_spec(c));
    lemma_run_end_grows(s, a + 1, |c: char| is_whitespace_spec(c));
    lemma_run_end_grows(s, w_end, |c: char| is_whitespace_spec(c));
    lemma_run_end_grows(s, h_end + 1, |c: char| is_whitespace_spec(c));
}

proof fn lemma_run_end_grows(s: Seq<char>, i: int, p: spec_fn(char) -> bool)
    ensures
        run_end(s, i, p) >= i,
    decreases s.len() - i,
{
    if 0 <= i < s.len() && p(s[i]) {
        lemma_run_end_grows(s, i + 1, p);
    }
}

/// The digits and hex keys of the depot entries of `s` from position `pos`
/// on, in order: at each position an entry is taken if one starts there and
/// the search goes on after it; otherwise the search moves one position on.
pub open spec fn entries_from(s: Seq<char>, pos: int) -> Seq<(Seq<char>, Seq<char>)>
    decreases s.len() - pos,
{
    if pos < 0 || pos >= s.len() {
        Seq::empty()
    } else {
        match entry_at(s, pos) {
            Some((end, digits, key)) => {
                if end > pos {
                    seq![(digits, key)] + entries_from(s, end)
                } else {
                    Seq::empty()
                }
            },
            None => entries_from(s, pos + 1),
        }
    }
}

/// The keys after taking the entries `es` in order into `keys`: an entry
/// whose digits are not a `u32` is passed over; a later entry for the same
/// depot replaces an earlier one.
pub open spec fn insert_vdf_entries(keys: Map<u32, Seq<char>>, es: Seq<(Seq<char>, Seq<char>)>) -> Map<
    u32,
    Seq<char>,
>
    decreases es.len(),
{
    if es.len() == 0 {
        keys
    } else {
        match parse_u32_spec(es[0].0) {
            Some(id) => insert_vdf_entries(keys.insert(id, es[0].1), es.drop_first()),
            None => insert_vdf_entries(keys, es.drop_first()),
        }
    }
}

/// The depot keys that a ManifestHub key file holds.
pub open spec fn vdf_depot_keys(s: Seq<char>) -> Map<u32, Seq<char>> {
    insert_vdf_entries(Map::empty(), entries_from(s, 0))
}

/// Tab, newline, carriage return and space are whitespace, as
/// `char::is_whitespace` has it.
pub proof fn lemma_common_whitespace()
    ensures
        is_whitespace_spec('\t'),
        is_whitespace_spec('\n'),
        is_whitespace_spec('\r'),
        is_whitespace_spec(' '),
{
}

proof fn lemma_run_over(s: Seq<char>, i: int, n: int, p: spec_fn(char) -> bool)
    requires
        0 <= i,
        0 <= n,
        i + n <= s.len(),
        forall|k: int| i <= k < i + n ==> p(#[trigger] s[k]),
        i + n < s.len() ==> !p(s[i + n]),
    ensures
        run_end(s, i, p) == i + n,
    decreases n,
{
    if n > 0 {
        lemma_run_over(s, i + 1, n - 1, p);
    }
}

/// A key file holding one depot entry `"{depot}" { "DecryptionKey" "{hex}" }`
/// gives that depot the hex key, whatever whitespace (spaces, tabs,
/// newlines, any character that `char::is_whitespace` accepts) stands
/// between its parts.
pub proof fn law_vdf_entry_gives_key(
    id: u32,
    key: Seq<char>,
    w1: Seq<char>,
    w2: Seq<char>,
    w3: Seq<char>,
    w4: Seq<char>,
)
    requires
        key.len() > 0,
        forall|i: int|
            0 <= i < key.len() ==> ('0' <= #[trigger] key[i] && key[i] <= '9') || ('a' <= key[i]
                && key[i] <= 'f') || ('A' <= key[i] && key[i] <= 'F'),
        forall|i: int| 0 <= i < w1.len() ==> is_whitespace_spec(#[trigger] w1[i]),
        forall|i: int| 0 <= i < w2.len() ==> is_whitespace_spec(#[trigger] w2[i]),
        forall|i: int| 0 <= i < w3.len() ==> is_whitespace_spec(#[trigger] w3[i]),
        forall|i: int| 0 <= i < w4.len() ==> is_whitespace_spec(#[trigger] w4[i]),
    ensures
        vdf_depot_keys(
            seq!['"'] + decimal(id as nat) + seq!['"'] + w1 + seq!['{'] + w2 + seq![
                '"',
                'D',
                'e',
                'c',
                'r',
                'y',
                'p',
                't',
                'i',
                'o',
                'n',
                'K',
                'e',
                'y',
                '"',
            ] + w3 + seq!['"'] + key + seq!['"'] + w4 + seq!['}'],
        ) == Map::<u32, Seq<char>>::empty().insert(id, key),
{
    let digits = decimal(id as nat);
    crate::text::lemma_decimal_digits(id as nat);
    crate::text::lemma_parse_decimal(id as nat, u32::MAX as nat);
    let q = seq!['"'];
    let ob = seq!['{'];
    let cb = seq!['}'];
    let dk = decryption_key_word();
    assert(dk =~= seq![
        '"',
        'D',
        'e',
        'c',
        'r',
        'y',
        'p',
        't',
        'i',
        'o',
        'n',
        'K',
        'e',
        'y',
        '"',
    ]);
    let p1 = q + digits;
    let p2 = p1 + q + w1;
    let p3 = p2 + ob + w2;
    let p4 = p3 + dk;
    let p5 = p4 + w3;
    let p6 = p5 + q + key;
    let p7 = p6 + q + w4;
    let text = p7 + cb;
    let d_end = p1.len() as int;
    let a = p2.len() as int;
    let b = p3.len() as int;
    let w_end = p4.len() as int;
    let c = p5.len() as int;
    let h_end = p6.len() as int;
    let e = p7.len() as int;
    // What stands at each position of the text.
    assert forall|k: int| 0 <= k < p7.len() implies text[k] == p7[k] by {}
    assert forall|k: int| 0 <= k < p6.len() implies text[k] == p6[k] by {
        assert(p7[k] == (p6 + q)[k]);
    }
    assert forall|k: int| 0 <= k < p5.len() implies text[k] == p5[k] by {
        assert(p6[k] == (p5 + q)[k]);
    }
    assert forall|k: int| 0 <= k < p4.len() implies text[k] == p4[k] by {
        assert(p5[k] == p4[k]);
    }
    assert forall|k: int| 0 <= k < p3.len() implies text[k] == p3[k] by {
        assert(p4[k] == p3[k]);
    }
    assert forall|k: int| 0 <= k < p2.len() implies text[k] == p2[k] by {
        assert(p3[k] == (p2 + ob)[k]);
    }
    assert forall|k: int| 0 <= k < p1.len() implies text[k] == p1[k] by {
        assert(p2[k] == (p1 + q)[k]);
    }
    assert(text[0] == '"');
    assert forall|k: int| 1 <= k < d_end implies is_decimal_number(#[trigger] text[k]) by {
        assert(text[k] == digits[k - 1]);
        assert(crate::text::is_ascii_digit(digits[k - 1]));
    }
    assert(text[d_end] == '"');
    lemma_run_over(text, 1, d_end - 1, |c: char| is_decimal_number(c));
    assert(digit_run_end(text, 1) == d_end);
    assert forall|k: int| d_end + 1 <= k < a implies is_whitespace_spec(#[trigger] text[k]) by {
        assert(text[k] == w1[k - d_end - 1]);
    }
    assert(text[a] == '{');
    lemma_run_over(text, d_end + 1, a - d_end - 1, |c: char| is_whitespace_spec(c));
    assert forall|k: int| a + 1 <= k < b implies is_whitespace_spec(#[trigger] text[k]) by {
        assert(text[k] == w2[k - a - 1]);
    }
    assert(text[b] == '"');
    lemma_run_over(text, a + 1, b - a - 1, |c: char| is_whitespace_spec(c));
    assert(text.subrange(b, w_end) =~= dk) by {
        assert forall|k: int| 0 <= k < dk.len() implies text.subrange(b, w_end)[k] == dk[k] by {
            assert(text[b + k] == p4[b + k]);
        }
    }
    assert forall|k: int| w_end <= k < c implies is_whitespace_spec(#[trigger] text[k]) by {
        assert(text[k] == w3[k - w_end]);
    }
    assert(text[c] == '"');
    lemma_run_over(text, w_end, c - w_end, |c: char| is_whitespace_spec(c));
    assert forall|k: int| c + 1 <= k < h_end implies is_hex_char(#[trigger] text[k]) by {
        assert(text[k] == key[k - c - 1]);
    }
    assert(text[h_end] == '"');
    lemma_run_over(text, c + 1, h_end - c - 1, |c: char| is_hex_char(c));
    assert forall|k: int| h_end + 1 <= k < e implies is_whitespace_spec(#[trigger] text[k]) by {
        assert(text[k] == w4[k - h_end - 1]);
    }
    assert(text[e] == '}');
    lemma_run_over(text, h_end + 1, e - h_end - 1, |c: char| is_whitespace_spec(c));
    assert(text.subrange(1, d_end) =~= digits);
    assert(text.subrange(c + 1, h_end) =~= key);
    assert(entry_at(text, 0) == Some((e + 1, digits, key)));
    assert(e + 1 == text.len());
    assert(entries_from(text, e + 1) == Seq::<(Seq<char>, Seq<char>)>::empty());
    assert(entries_from(text, 0) == seq![(digits, key)]);
    let es = seq![(digits, key)];
    assert(es.drop_first() =~= Seq::<(Seq<char>, Seq<char>)>::empty());
    assert(parse_u32_spec(digits) == Some(id));
    assert(insert_vdf_entries(Map::empty().insert(id, key), es.drop_first()) == Map::<
        u32,
        Seq<char>,
    >::empty().insert(id, key));
}

fn digit_run(s: &[char], i: usize) -> (e: usize)
    requires
        i <= s.len(),
    ensures
        e == digit_run_end(s@, i as int),
{
    let mut k = i;
    while k < s.len() && decimal_number(s[k])
        invariant
            i <= k <= s.len(),
            run_end(s@, i as int, |c: char| is_decimal_number(c)) == run_end(
                s@,
                k as int,
                |c: char| is_decimal_number(c),
            ),
        decreases s.len() - k,
    {
        k = k + 1;
    }
    k
}

fn space_run(s: &[char], i: usize) -> (e: usize)
    requires
        i <= s.len(),
    ensures
        e == space_run_end(s@, i as int),
{
    let mut k = i;
    while k < s.len() && is_whitespace(s[k])
        invariant
            i <= k <= s.len(),
            run_end(s@, i as int, |c: char| is_whitespace_spec(c)) == run_end(
                s@,
                k as int,
                |c: char| is_whitespace_spec(c),
            ),
        decreases s.len() - k,
    {
        k = k + 1;
    }
    k
}

fn hex_run(s: &[char], i: usize) -> (e: usize)
    requires
        i <= s.len(),
    ensures
        e == hex_run_end(s@, i as int),
{
    let mut k = i;
    while k < s.len() && (('a' <= s[k] && s[k] <= 'f') || ('A' <= s[k] && s[k] <= 'F') || ('0'
        <= s[k] && s[k] <= '9'))
        invariant
            i <= k <= s.len(),
            run_end(s@, i as int, |c: char| is_hex_char(c)) == run_end(
                s@,
                k as int,
                |c: char| is_hex_char(c),
            ),
        decreases s.len() - k,
    {
        k = k + 1;
    }
    k
}

fn char_is(s: &[char], i: usize, c: char) -> (b: bool)
    ensures
        b == char_at(s@, i as int, c),
{
    i < s.len() && s[i] == c
}

fn word_at(s: &[char], i: usize) -> (b: bool)
    ensures
        b == (i + decryption_key_word().len() <= s.len() && s@.subrange(
            i as int,
            i + decryption_key_word().len(),
        ) == decryption_key_word()),
{
    let w: Vec<char> = vec!['"', 'D', 'e', 'c', 'r', 'y', 'p', 't', 'i', 'o', 'n', 'K', 'e', 'y', '"'];
    assert(w@ =~= decryption_key_word());
    if i > s.len() || s.len() - i < w.len() {
        return false;
    }
    let mut k: usize = 0;
    while k < w.len()
        invariant
            k <= w.len(),
            w@ == decryption_key_word(),
            i + w.len() <= s.len(),
            forall|j: int| 0 <= j < k ==> s@[i + j] == w@[j],
        decreases w.len() - k,
    {
        if s[i + k] != w[k] {
            assert(s@.subrange(i as int, i + w.len())[k as int] != w@[k as int]);
            return false;
        }
        k = k + 1;
    }
    assert(s@.subrange(i as int, i + w.len()) =~= w@);
    true
}

/// The entry that starts at `p`, as positions: its end, and where its digits
/// and its key lie.
fn entry_at_exec(s: &[char], p: usize) -> (r: Option<(usize, usize, usize, usize, usize)>)
    requires
        p < s.len(),
    ensures
        match entry_at(s@, p as int) {
            None => r is None,
            Some((end, digits, key)) => r matches Some((e, ds, de, ks, ke)) && e == end && ds
                <= de <= s.len() && ks <= ke <= s.len() && s@.subrange(ds as int, de as int)
                == digits && s@.subrange(ks as int, ke as int) == key,
        },
{
    proof {
        lemma_run_end_bounds(s@, p + 1, |c: char| is_decimal_number(c));
    }
    if !char_is(s, p, '"') {
        return None;
    }
    let d_end = digit_run(s, p + 1);
    if d_end <= p + 1 || !char_is(s, d_end, '"') {
        return None;
    }
    let a = space_run(s, d_end + 1);
    proof {
        lemma_run_end_bounds(s@, d_end + 1, |c: char| is_whitespace_spec(c));
    }
    if !char_is(s, a, '{') {
        return None;
    }
    let b = space_run(s, a + 1);
    proof {
        lemma_run_end_bounds(s@, a + 1, |c: char| is_whitespace_spec(c));
    }
    if !word_at(s, b) {
        return None;
    }
    let w_end = b + 15;
    let c = space_run(s, w_end);
    proof {
        lemma_run_end_bounds(s@, w_end as int, |c: char| is_whitespace_spec(c));
    }
    if !char_is(s, c, '"') {
        return None;
    }
    let h_end = hex_run(s, c + 1);
    proof {
        lemma_run_end_bounds(s@, c + 1, |c: char| is_hex_char(c));
    }
    if h_end <= c + 1 || !char_is(s, h_end, '"') {
        return None;
    }
    let e = space_run(s, h_end + 1);
    proof {
        lemma_run_end_bounds(s@, h_end + 1, |c: char| is_whitespace_spec(c));
    }
    if !char_is(s, e, '}') {
        return None;
    }
    Some((e + 1, p + 1, d_end, c + 1, h_end))
}

fn string_of_range(s: &[char], from: usize, to: usize) -> (out: String)
    requires
        from <= to <= s.len(),
    ensures
        out@ == s@.subrange(from as int, to as int),
{
    let mut out = String::new();
    let mut k = from;
    while k < to
        invariant
            from <= k <= to <= s.len(),
            out@ == s@.subrange(from as int, k as int),
        decreases to - k,
    {
        push_char(&mut out, s[k]);
        k = k + 1;
        assert(out@ =~= s@.subrange(from as int, k as int));
    }
    out
}

pub open spec fn string_map_view(m: Map<u32, String>) -> Map<u32, Seq<char>> {
    m.map_values(|s: String| s@)
}

/// The depot keys that a ManifestHub key file holds: every
/// `"{depot}" { "DecryptionKey" "{hex}" }` entry, found from the front
/// without overlap, whose depot is a `u32`; a later entry for the same depot
/// replaces an earlier one.
pub fn parse_vdf_depot_keys(text: &str) -> (keys: HashMap<u32, String>)
    ensures
        string_map_view(keys@) == vdf_depot_keys(text@),
{
    let s = chars_of(text);
    let ghost goal = vdf_depot_keys(text@);
    let mut keys: HashMap<u32, String> = HashMap::new();
    let mut pos: usize = 0;
    assert(string_map_view(keys@) =~= Map::<u32, Seq<char>>::empty());
    while pos < s.len()
        invariant
            pos <= s.len(),
            s@ == text@,
            goal == vdf_depot_keys(text@),
            insert_vdf_entries(string_map_view(keys@), entries_from(s@, pos as int)) == goal,
        decreases s.len() - pos,
    {
        match entry_at_exec(s.as_slice(), pos) {
            None => {
                pos = pos + 1;
            },
            Some((end, ds, de, ks, ke)) => {
                proof {
                    lemma_entry_end(s@, pos as int);
                }
                let ghost entry = (s@.subrange(ds as int, de as int), s@.subrange(
                    ks as int,
                    ke as int,
                ));
                let ghost rest = entries_from(s@, end as int);
                assert(entries_from(s@, pos as int) == seq![entry] + rest);
                assert((seq![entry] + rest)[0] == entry);
                assert((seq![entry] + rest).drop_first() =~= rest);
                let digits = slice_to_vec(s.as_slice(), ds, de);
                match parse_unsigned_chars(digits.as_slice(), 0xffff_ffffu64) {
                    Some(v) => {
                        let id = v as u32;
                        let key = string_of_range(s.as_slice(), ks, ke);
                        let ghost before = keys@;
                        let ghost kv = key@;
                        keys.insert(id, key);
                        assert(string_map_view(keys@) =~= string_map_view(before).insert(
                            id,
                            kv,
                        ));
                    },
                    None => {},
                }
                pos = end;
            },
        }
    }
    assert(entries_from(s@, pos as int) =~= Seq::<(Seq<char>, Seq<char>)>::empty());
    keys
}

fn slice_to_vec(s: &[char], from: usize, to: usize) -> (out: Vec<char>)
    requires
        from <= to <= s.len(),
    ensures
        out@ == s@.subrange(from as int, to as int),
{
    crate::text::slice_chars(s, from, to)
}

// ---------------------------------------------------------------------------
// ManifestHub
// ---------------------------------------------------------------------------

/// Why fetching from ManifestHub failed.
#[derive(Debug, Clone, PartialEq, Eq)]
pub enum FetchError {
    /// The server answered with a status that is not a success.
    HttpStatus(u16),
}

/// A 2xx status.
pub open spec fn is_success_status(status: u16) -> bool {
    200 <= status && status <= 299
}

/// Where depot keys and manifests are fetched from.
pub struct ManifestHubFetcher {
    base_url: String,
}

pub open spec fn manifest_hub_url() -> Seq<char> {
    "https://raw.githubusercontent.com/SteamAutoCracks/ManifestHub/refs/heads/main"@
}

/// `{base}/{app}/key.vdf`.
pub open spec fn key_url_text(base: Seq<char>, app_id: u32) -> Seq<char> {
    base + seq!['/'] + decimal(app_id as nat) + "/key.vdf"@
}

/// `{base}/{depot}_{manifest}.manifest`.
pub open spec fn hub_manifest_url_text(base: Seq<char>, depot_id: u32, manifest_id: u64) -> Seq<
    char,
> {
    base + seq!['/'] + decimal(depot_id as nat) + seq!['_'] + decimal(manifest_id as nat)
        + ".manifest"@
}

impl ManifestHubFetcher {
    pub closed spec fn base(&self) -> Seq<char> {
        self.base_url@
    }

    /// Fetching from the repository at `base_url`.
    pub fn new(base_url: String) -> (f: Self)
        ensures
            f.base() == base_url@,
    {
        ManifestHubFetcher { base_url }
    }

    /// Fetching from the main branch of ManifestHub.
    pub fn default() -> (f: Self)
        ensures
            f.base() == manifest_hub_url(),
    {
        ManifestHubFetcher {
            base_url: String::from_str(
                "https://raw.githubusercontent.com/SteamAutoCracks/ManifestHub/refs/heads/main",
            ),
        }
    }

    /// Where the depot keys of an app are: `{base}/{app}/key.vdf`.
    pub fn key_url(&self, app_id: u32) -> (u: String)
        ensures
            u@ == key_url_text(self.base(), app_id),
    {
        let mut u = self.base_url.clone();
        push_char(&mut u, '/');
        push_decimal(&mut u, app_id as u64);
        push_str(&mut u, "/key.vdf");
        u
    }

    /// Where a manifest is: `{base}/{depot}_{manifest}.manifest`.
    pub fn manifest_url(&self, depot_id: u32, manifest_id: u64) -> (u: String)
        ensures
            u@ == hub_manifest_url_text(self.base(), depot_id, manifest_id),
    {
        let mut u = self.base_url.clone();
        push_char(&mut u, '/');
        push_decimal(&mut u, depot_id as u64);
        push_char(&mut u, '_');
        push_decimal(&mut u, manifest_id);
        push_str(&mut u, ".manifest");
        u
    }

    /// The depot keys that an answer for a key file gives: none for a 404,
    /// an error for another status that is not a success, else the keys that
    /// the body holds.
    pub fn depot_keys_from_response(status: u16, body: &str) -> (r: Result<
        HashMap<u32, String>,
        FetchError,
    >)
        ensures
            status == 404 ==> (r matches Ok(m) && m@ == Map::<u32, String>::empty()),
            status != 404 && !is_success_status(status) ==> r == Err::<
                HashMap<u32, String>,
                FetchError,
            >(FetchError::HttpStatus(status)),
            status != 404 && is_success_status(status) ==> (r matches Ok(m) && string_map_view(
                m@,
            ) == vdf_depot_keys(body@)),
    {
        if status == 404 {
            return Ok(HashMap::new());
        }
        if !(200 <= status && status <= 299) {
            return Err(FetchError::HttpStatus(status));
        }
        Ok(parse_vdf_depot_keys(body))
    }

    /// The manifest that an answer gives: the body for a success, else an
    /// error.
    pub fn manifest_from_response(status: u16, body: Vec<u8>) -> (r: Result<Vec<u8>, FetchError>)
        ensures
            is_success_status(status) ==> r == Ok::<Vec<u8>, FetchError>(body),
            !is_success_status(status) ==> r == Err::<Vec<u8>, FetchError>(
                FetchError::HttpStatus(status),
            ),
    {
        if 200 <= status && status <= 299 {
            Ok(body)
        } else {
            Err(FetchError::HttpStatus(status))
        }
    }

    /// Whether an answer says that the manifest exists: a success does.
    pub fn manifest_exists_from_status(status: u16) -> (b: bool)
        ensures
            b == is_success_status(status),
    {
        200 <= status && status <= 299
    }
}

} // verus!
