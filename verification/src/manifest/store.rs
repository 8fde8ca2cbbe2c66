//! Where manifests and depot keys are kept on disk, the text of the key
//! files, and the manifests cached in memory.
use std::collections::HashMap;
use vstd::prelude::*;

use crate::manifest::parser::{Manifest, ManifestView};
use crate::paths::{
    config_dir, join_path, join_result, join_twice_result, kept_component, lemma_join_twice,
};
use crate::text::{
    chars_of, decimal, ends_with, ends_with_chars, find_char, first_index, lemma_decimal_digits,
    lemma_parse_decimal, lines, lines_of, parse_u32, parse_u32_spec, parse_u64, parse_u64_spec,
    push_char, push_decimal, push_str, slice_chars, split_once, string_from_chars,
    trim_end_matches, trim_end_matches_chars, all_digits, is_ascii_digit, line_state, strip_cr,
};

verus! {

broadcast use {vstd::std_specs::hash::group_hash_axioms, vstd::string::group_string_axioms};

// ---------------------------------------------------------------------------
// File names
// ---------------------------------------------------------------------------

pub open spec fn manifest_suffix() -> Seq<char> {
    seq!['.', 'm', 'a', 'n', 'i', 'f', 'e', 's', 't']
}

/// `{depot}_{manifest}.manifest`.
pub open spec fn manifest_file_name_text(depot_id: u32, manifest_id: u64) -> Seq<char> {
    decimal(depot_id as nat) + seq!['_'] + decimal(manifest_id as nat) + manifest_suffix()
}

/// `{app}.key`.
pub open spec fn key_file_name_text(app_id: u32) -> Seq<char> {
    decimal(app_id as nat) + seq!['.', 'k', 'e', 'y']
}

/// The depot and manifest ids that a file name in the manifest directory
/// stands for: the name must end in `.manifest`; with every trailing
/// `.manifest` taken off, the rest must hold exactly one `_`, with a `u32`
/// before it and a `u64` after it.
pub open spec fn manifest_file_ids(name: Seq<char>) -> Option<(u32, u64)> {
    if !ends_with(name, manifest_suffix()) {
        None
    } else {
        let stem = trim_end_matches(name, manifest_suffix());
        match split_once(stem, '_') {
            Some((a, b)) => if first_index(b, '_') is Some {
                None
            } else {
                match (parse_u32_spec(a), parse_u64_spec(b)) {
                    (Some(d), Some(m)) => Some((d, m)),
                    _ => None,
                }
            },
            None => None,
        }
    }
}

pub proof fn lemma_plain_decimal(n: nat)
    ensures
        forall|i: int|
            0 <= i < decimal(n).len() ==> is_ascii_digit(#[trigger] decimal(n)[i]),
        decimal(n).len() > 0,
{
    lemma_decimal_digits(n);
}

proof fn lemma_manifest_name_plain(depot_id: u32, manifest_id: u64)
    ensures
        kept_component(manifest_file_name_text(depot_id, manifest_id)),
{
    lemma_plain_decimal(depot_id as nat);
    lemma_plain_decimal(manifest_id as nat);
    let a = decimal(depot_id as nat);
    let b = decimal(manifest_id as nat);
    let n = manifest_file_name_text(depot_id, manifest_id);
    assert(n.len() > 2);
    assert forall|i: int| 0 <= i < n.len() implies {
        let c = #[trigger] n[i];
        ('a' <= c && c <= 'z') || ('A' <= c && c <= 'Z') || ('0' <= c && c <= '9') || c == '_'
            || c == '.' || c == '-'
    } by {
        if i < a.len() {
            assert(n[i] == a[i]);
        } else if i == a.len() {
        } else if i < a.len() + 1 + b.len() {
            assert(n[i] == b[i - a.len() - 1]);
        } else {
            assert(n[i] == manifest_suffix()[i - a.len() - 1 - b.len()]);
        }
    }
}

proof fn lemma_key_name_plain(app_id: u32)
    ensures
        kept_component(key_file_name_text(app_id)),
{
    lemma_plain_decimal(app_id as nat);
    let a = decimal(app_id as nat);
    let n = key_file_name_text(app_id);
    assert(n.len() > 2);
    assert forall|i: int| 0 <= i < n.len() implies {
        let c = #[trigger] n[i];
        ('a' <= c && c <= 'z') || ('A' <= c && c <= 'Z') || ('0' <= c && c <= '9') || c == '_'
            || c == '.' || c == '-'
    } by {
        if i < a.len() {
            assert(n[i] == a[i]);
        }
    }
}

/// `{depot}_{manifest}.manifest`, the file name of a stored manifest.
pub fn manifest_file_name(depot_id: u32, manifest_id: u64) -> (name: String)
    ensures
        name@ == manifest_file_name_text(depot_id, manifest_id),
{
    let mut name = String::new();
    push_decimal(&mut name, depot_id as u64);
    push_char(&mut name, '_');
    push_decimal(&mut name, manifest_id);
    proof {
        reveal_strlit(".manifest");
    }
    push_str(&mut name, ".manifest");
    assert(name@ =~= manifest_file_name_text(depot_id, manifest_id));
    name
}

/// `{app}.key`, the file name of an app's stored depot keys.
pub fn key_file_name(app_id: u32) -> (name: String)
    ensures
        name@ == key_file_name_text(app_id),
{
    let mut name = String::new();
    push_decimal(&mut name, app_id as u64);
    proof {
        reveal_strlit(".key");
    }
    push_str(&mut name, ".key");
    assert(name@ =~= key_file_name_text(app_id));
    name
}

proof fn lemma_no_char_in_digits(s: Seq<char>, c: char)
    requires
        forall|i: int| 0 <= i < s.len() ==> is_ascii_digit(#[trigger] s[i]),
        !is_ascii_digit(c),
    ensures
        first_index(s, c) is None,
    decreases s.len(),
{
    if s.len() > 0 {
        assert forall|i: int| 0 <= i < s.drop_first().len() implies is_ascii_digit(
            #[trigger] s.drop_first()[i],
        ) by {
            assert(s.drop_first()[i] == s[i + 1]);
        }
        lemma_no_char_in_digits(s.drop_first(), c);
    }
}

proof fn lemma_first_index_after_digits(a: Seq<char>, c: char, rest: Seq<char>)
    requires
        forall|i: int| 0 <= i < a.len() ==> is_ascii_digit(#[trigger] a[i]),
        !is_ascii_digit(c),
    ensures
        first_index(a + seq![c] + rest, c) == Some(a.len()),
    decreases a.len(),
{
    let s = a + seq![c] + rest;
    if a.len() == 0 {
        assert(s[0] == c);
    } else {
        assert forall|i: int| 0 <= i < a.drop_first().len() implies is_ascii_digit(
            #[trigger] a.drop_first()[i],
        ) by {
            assert(a.drop_first()[i] == a[i + 1]);
        }
        lemma_first_index_after_digits(a.drop_first(), c, rest);
        assert(s.drop_first() =~= a.drop_first() + seq![c] + rest);
        assert(s[0] == a[0]);
    }
}

/// The ids read back from the name of a stored manifest are the ids it was
/// stored under.
pub proof fn law_manifest_file_name_roundtrip(depot_id: u32, manifest_id: u64)
    ensures
        manifest_file_ids(manifest_file_name_text(depot_id, manifest_id)) == Some(
            (depot_id, manifest_id),
        ),
{
    let a = decimal(depot_id as nat);
    let b = decimal(manifest_id as nat);
    let suf = manifest_suffix();
    let name = manifest_file_name_text(depot_id, manifest_id);
    let stem = a + seq!['_'] + b;
    lemma_plain_decimal(depot_id as nat);
    lemma_plain_decimal(manifest_id as nat);
    assert(name =~= stem + suf);
    assert(name.skip(name.len() - suf.len()) =~= suf);
    assert(name.take(name.len() - suf.len()) =~= stem);
    assert(!ends_with(stem, suf)) by {
        assert(stem.last() == b.last());
        assert(is_ascii_digit(b[b.len() - 1]));
        if ends_with(stem, suf) {
            assert(stem.skip(stem.len() - suf.len())[suf.len() - 1] == stem.last());
        }
    }
    assert(trim_end_matches(stem, suf) == stem);
    assert(trim_end_matches(name, suf) == stem);
    lemma_first_index_after_digits(a, '_', b);
    assert(stem.take(a.len() as int) =~= a);
    assert(stem.skip(a.len() as int + 1) =~= b);
    lemma_no_char_in_digits(b, '_');
    lemma_parse_decimal(depot_id as nat, u32::MAX as nat);
    lemma_parse_decimal(manifest_id as nat, u64::MAX as nat);
}

/// The depot and manifest ids that a file name in the manifest directory
/// stands for, if any.
pub fn parse_manifest_file_name(name: &str) -> (r: Option<(u32, u64)>)
    ensures
        r == manifest_file_ids(name@),
{
    let cs = chars_of(name);
    let suffix: Vec<char> = vec!['.', 'm', 'a', 'n', 'i', 'f', 'e', 's', 't'];
    assert(suffix@ =~= manifest_suffix());
    if !ends_with_chars(cs.as_slice(), suffix.as_slice()) {
        return None;
    }
    let stem = trim_end_matches_chars(cs.as_slice(), suffix.as_slice());
    match find_char(stem.as_slice(), '_') {
        None => None,
        Some(u) => {
            let a = slice_chars(stem.as_slice(), 0, u);
            let b = slice_chars(stem.as_slice(), u + 1, stem.len());
            assert(a@ =~= stem@.take(u as int));
            assert(b@ =~= stem@.skip(u + 1));
            if find_char(b.as_slice(), '_').is_some() {
                return None;
            }
            let a_text = string_from_chars(a.as_slice());
            let b_text = string_from_chars(b.as_slice());
            match (parse_u32(a_text.as_str()), parse_u64(b_text.as_str())) {
                (Some(d), Some(m)) => Some((d, m)),
                _ => None,
            }
        },
    }
}

// ---------------------------------------------------------------------------
// Depot key files
// ---------------------------------------------------------------------------

/// The line `{depot};{key}` of a key file.
pub open spec fn key_entry_line(depot_id: u32, key: Seq<char>) -> Seq<char> {
    decimal(depot_id as nat) + seq![';'] + key
}

/// The text of a key file holding `entries` in order, one line each,
/// joined by `\n`.
pub open spec fn key_file_text(entries: Seq<(u32, Seq<char>)>) -> Seq<char>
    decreases entries.len(),
{
    if entries.len() == 0 {
        Seq::empty()
    } else if entries.len() == 1 {
        key_entry_line(entries[0].0, entries[0].1)
    } else {
        key_file_text(entries.drop_last()) + seq!['\n'] + key_entry_line(
            entries.last().0,
            entries.last().1,
        )
    }
}

/// What one line of a key file gives: the line is split at its first `;`,
/// the text before it read as a `u32` depot id, and the rest kept as the key.
pub open spec fn key_file_line(line: Seq<char>) -> Option<(u32, Seq<char>)> {
    match split_once(line, ';') {
        Some((a, b)) => match parse_u32_spec(a) {
            Some(id) => Some((id, b)),
            None => None,
        },
        None => None,
    }
}

/// The keys after reading the lines `ls` of a key file in order into `keys`;
/// a later line for the same depot replaces an earlier one.
pub open spec fn read_key_lines(keys: Map<u32, Seq<char>>, ls: Seq<Seq<char>>) -> Map<
    u32,
    Seq<char>,
>
    decreases ls.len(),
{
    if ls.len() == 0 {
        keys
    } else {
        match key_file_line(ls[0]) {
            Some((id, key)) => read_key_lines(keys.insert(id, key), ls.drop_first()),
            None => read_key_lines(keys, ls.drop_first()),
        }
    }
}

/// The keys that a key file holds.
pub open spec fn read_key_file(content: Seq<char>) -> Map<u32, Seq<char>> {
    read_key_lines(Map::empty(), lines(content))
}

/// The keys of `entries` put into `keys` in order, a later entry for the
/// same depot replacing an earlier one.
pub open spec fn insert_entries(keys: Map<u32, Seq<char>>, entries: Seq<(u32, Seq<char>)>) -> Map<
    u32,
    Seq<char>,
>
    decreases entries.len(),
{
    if entries.len() == 0 {
        keys
    } else {
        insert_entries(keys.insert(entries[0].0, entries[0].1), entries.drop_first())
    }
}

/// A key that a key file can hold on one line and give back unchanged.
pub open spec fn storable_key(key: Seq<char>) -> bool {
    &&& forall|i: int| 0 <= i < key.len() ==> #[trigger] key[i] != '\n'
    &&& !(key.len() > 0 && key.last() == '\r')
}

pub open spec fn string_map_view(m: Map<u32, String>) -> Map<u32, Seq<char>> {
    m.map_values(|s: String| s@)
}

/// The text of a key file holding `entries` in order: a `{depot};{key}` line
/// each, joined by `\n`.
pub fn depot_keys_file_text(entries: &[(u32, String)]) -> (text: String)
    ensures
        text@ == key_file_text(entries@.map_values(|e: (u32, String)| (e.0, e.1@))),
{
    let ghost es = entries@.map_values(|e: (u32, String)| (e.0, e.1@));
    let mut text = String::new();
    let mut i: usize = 0;
    while i < entries.len()
        invariant
            i <= entries.len(),
            es == entries@.map_values(|e: (u32, String)| (e.0, e.1@)),
            es.len() == entries.len(),
            text@ == key_file_text(es.take(i as int)),
        decreases entries.len() - i,
    {
        let ghost before = text@;
        if i > 0 {
            push_char(&mut text, '\n');
        }
        push_decimal(&mut text, entries[i].0 as u64);
        push_char(&mut text, ';');
        push_str(&mut text, entries[i].1.as_str());
        proof {
            let t = es.take(i + 1);
            assert(t.drop_last() =~= es.take(i as int));
            assert(t.last() == es[i as int]);
            if i == 0 {
                assert(text@ =~= key_entry_line(es[0].0, es[0].1));
            } else {
                assert(text@ =~= before + seq!['\n'] + key_entry_line(
                    es[i as int].0,
                    es[i as int].1,
                ));
            }
        }
        i = i + 1;
    }
    assert(es.take(entries.len() as int) =~= es);
    text
}

/// The keys that a key file holds: each line is split at its first `;`,
/// lines whose text before it is not a `u32` are passed over, and the rest
/// of the line is kept as the key; a later line for the same depot replaces
/// an earlier one.
pub fn parse_depot_keys_file(content: &str) -> (keys: HashMap<u32, String>)
    ensures
        string_map_view(keys@) == read_key_file(content@),
{
    let cs = chars_of(content);
    let ls = lines_of(cs.as_slice());
    let ghost all = lines(content@);
    let mut keys: HashMap<u32, String> = HashMap::new();
    let mut j: usize = 0;
    assert(all.skip(0) =~= all);
    assert(string_map_view(keys@) =~= Map::<u32, Seq<char>>::empty());
    while j < ls.len()
        invariant
            j <= ls.len(),
            all == lines(content@),
            ls@.len() == all.len(),
            forall|k: int| 0 <= k < ls@.len() ==> (#[trigger] ls@[k])@ == all[k],
            read_key_lines(string_map_view(keys@), all.skip(j as int)) == read_key_file(
                content@,
            ),
        decreases ls.len() - j,
    {
        let ghost rest = all.skip(j as int);
        assert(rest[0] == all[j as int]);
        assert(rest.drop_first() =~= all.skip(j + 1));
        let line: &Vec<char> = &ls[j];
        match find_char(line.as_slice(), ';') {
            None => {},
            Some(semi) => {
                let a = slice_chars(line.as_slice(), 0, semi);
                let b = slice_chars(line.as_slice(), semi + 1, line.len());
                assert(a@ =~= line@.take(semi as int));
                assert(b@ =~= line@.skip(semi + 1));
                let a_text = string_from_chars(a.as_slice());
                match parse_u32(a_text.as_str()) {
                    None => {},
                    Some(id) => {
                        let key = string_from_chars(b.as_slice());
                        let ghost kv = key@;
                        let ghost before = keys@;
                        keys.insert(id, key);
                        assert(string_map_view(keys@) =~= string_map_view(before).insert(
                            id,
                            kv,
                        ));
                    },
                }
            },
        }
        j = j + 1;
    }
    assert(all.skip(j as int) =~= Seq::<Seq<char>>::empty());
    keys
}

// ---------------------------------------------------------------------------
// The key-file law
// ---------------------------------------------------------------------------

proof fn lemma_line_state_append(x: Seq<char>, y: Seq<char>)
    requires
        forall|i: int| 0 <= i < y.len() ==> #[trigger] y[i] != '\n',
    ensures
        line_state(x + y) == (line_state(x).0, line_state(x).1 + y),
    decreases y.len(),
{
    if y.len() == 0 {
        assert(x + y =~= x);
        assert(line_state(x).1 + y =~= line_state(x).1);
    } else {
        lemma_line_state_append(x, y.drop_last());
        assert((x + y).drop_last() =~= x + y.drop_last());
        assert((x + y).last() == y.last());
        assert(line_state(x).1 + y.drop_last() + seq![y.last()] =~= line_state(x).1 + y);
        assert((line_state(x).1 + y.drop_last()).push(y.last()) =~= line_state(x).1 + y);
    }
}

pub open spec fn entry_lines(entries: Seq<(u32, Seq<char>)>) -> Seq<Seq<char>> {
    entries.map_values(|e: (u32, Seq<char>)| key_entry_line(e.0, e.1))
}

proof fn lemma_entry_line_shape(id: u32, key: Seq<char>)
    requires
        storable_key(key),
    ensures
        forall|i: int|
            0 <= i < key_entry_line(id, key).len() ==> #[trigger] key_entry_line(id, key)[i]
                != '\n',
        key_entry_line(id, key).len() > 0,
        strip_cr(key_entry_line(id, key)) == key_entry_line(id, key),
        key_file_line(key_entry_line(id, key)) == Some((id, key)),
{
    let a = decimal(id as nat);
    let l = key_entry_line(id, key);
    lemma_plain_decimal(id as nat);
    assert forall|i: int| 0 <= i < l.len() implies #[trigger] l[i] != '\n' by {
        if i < a.len() {
            assert(l[i] == a[i]);
        } else if i > a.len() {
            assert(l[i] == key[i - a.len() - 1]);
        }
    }
    if key.len() > 0 {
        assert(l.last() == key.last());
    } else {
        assert(l.last() == ';');
    }
    lemma_first_index_after_digits(a, ';', key);
    assert(l.take(a.len() as int) =~= a);
    assert(l.skip(a.len() as int + 1) =~= key);
    lemma_parse_decimal(id as nat, u32::MAX as nat);
}

proof fn lemma_key_file_line_state(entries: Seq<(u32, Seq<char>)>)
    requires
        entries.len() > 0,
        forall|i: int| 0 <= i < entries.len() ==> storable_key(#[trigger] entries[i].1),
    ensures
        line_state(key_file_text(entries)) == (
            entry_lines(entries.drop_last()),
            key_entry_line(entries.last().0, entries.last().1),
        ),
    decreases entries.len(),
{
    let last = entries.last();
    assert(storable_key(entries[entries.len() - 1].1));
    lemma_entry_line_shape(last.0, last.1);
    if entries.len() == 1 {
        lemma_line_state_append(Seq::<char>::empty(), key_entry_line(last.0, last.1));
        assert(Seq::<char>::empty() + key_entry_line(last.0, last.1) =~= key_entry_line(
            last.0,
            last.1,
        ));
        assert(line_state(Seq::<char>::empty()) == (
            Seq::<Seq<char>>::empty(),
            Seq::<char>::empty(),
        ));
        assert(entry_lines(entries.drop_last()) =~= Seq::<Seq<char>>::empty());
        assert(Seq::<char>::empty() + key_entry_line(last.0, last.1) =~= key_entry_line(
            last.0,
            last.1,
        ));
    } else {
        let front = entries.drop_last();
        assert forall|i: int| 0 <= i < front.len() implies storable_key(#[trigger] front[i].1) by {
            assert(front[i] == entries[i]);
        }
        lemma_key_file_line_state(front);
        let prev = front.last();
        assert(storable_key(entries[entries.len() - 2].1));
        lemma_entry_line_shape(prev.0, prev.1);
        let x = key_file_text(front);
        let xn = x + seq!['\n'];
        assert(xn.drop_last() =~= x);
        assert(line_state(xn) == (
            entry_lines(front.drop_last()).push(key_entry_line(prev.0, prev.1)),
            Seq::<char>::empty(),
        ));
        assert(entry_lines(front.drop_last()).push(key_entry_line(prev.0, prev.1))
            =~= entry_lines(front));
        lemma_line_state_append(xn, key_entry_line(last.0, last.1));
        assert(Seq::<char>::empty() + key_entry_line(last.0, last.1) =~= key_entry_line(
            last.0,
            last.1,
        ));
        assert(key_file_text(entries) =~= xn + key_entry_line(last.0, last.1));
    }
}

proof fn lemma_lines_key_file(entries: Seq<(u32, Seq<char>)>)
    requires
        forall|i: int| 0 <= i < entries.len() ==> storable_key(#[trigger] entries[i].1),
    ensures
        lines(key_file_text(entries)) == entry_lines(entries),
{
    if entries.len() == 0 {
        assert(entry_lines(entries) =~= Seq::<Seq<char>>::empty());
    } else {
        lemma_key_file_line_state(entries);
        let last = entries.last();
        assert(storable_key(entries[entries.len() - 1].1));
        lemma_entry_line_shape(last.0, last.1);
        assert(entry_lines(entries.drop_last()).push(key_entry_line(last.0, last.1))
            =~= entry_lines(entries));
    }
}

proof fn lemma_read_entry_lines(keys: Map<u32, Seq<char>>, entries: Seq<(u32, Seq<char>)>)
    requires
        forall|i: int| 0 <= i < entries.len() ==> storable_key(#[trigger] entries[i].1),
    ensures
        read_key_lines(keys, entry_lines(entries)) == insert_entries(keys, entries),
    decreases entries.len(),
{
    if entries.len() > 0 {
        let rest = entries.drop_first();
        assert forall|i: int| 0 <= i < rest.len() implies storable_key(#[trigger] rest[i].1) by {
            assert(rest[i] == entries[i + 1]);
        }
        assert(storable_key(entries[0].1));
        lemma_entry_line_shape(entries[0].0, entries[0].1);
        assert(entry_lines(entries).drop_first() =~= entry_lines(rest));
        lemma_read_entry_lines(keys.insert(entries[0].0, entries[0].1), rest);
    }
}

/// Reading a key file back gives the keys written to it: the entries, a
/// later one for the same depot replacing an earlier one, for keys that hold
/// no newline and do not end in a carriage return.
pub proof fn law_key_file_roundtrip(entries: Seq<(u32, Seq<char>)>)
    requires
        forall|i: int| 0 <= i < entries.len() ==> storable_key(#[trigger] entries[i].1),
    ensures
        read_key_file(key_file_text(entries)) == insert_entries(Map::empty(), entries),
{
    lemma_lines_key_file(entries);
    lemma_read_entry_lines(Map::empty(), entries);
}

// ---------------------------------------------------------------------------
// The store
// ---------------------------------------------------------------------------

struct CachedManifest {
    depot_id: u32,
    manifest_id: u64,
    manifest: Manifest,
}

/// Stored manifests and depot keys under a base directory, and the
/// manifests cached in memory.
pub struct ManifestStore {
    base_path: String,
    manifest_cache: Vec<CachedManifest>,
}

impl ManifestStore {
    #[verifier::type_invariant]
    closed spec fn cache_keys_distinct(self) -> bool {
        forall|i: int, j: int|
            0 <= i < j < self.manifest_cache@.len() ==> (#[trigger] self.manifest_cache@[i]).depot_id
                != (#[trigger] self.manifest_cache@[j]).depot_id
                || self.manifest_cache@[i].manifest_id != self.manifest_cache@[j].manifest_id
    }

    /// The directory that manifests and keys are stored under.
    pub closed spec fn base(&self) -> Seq<char> {
        self.base_path@
    }

    /// The manifests cached in memory, by depot and manifest id.
    pub closed spec fn cache(&self) -> Map<(u32, u64), ManifestView> {
        Map::new(
            |k: (u32, u64)|
                exists|i: int|
                    0 <= i < self.manifest_cache@.len() && (#[trigger] self.manifest_cache@[i]).depot_id
                        == k.0 && self.manifest_cache@[i].manifest_id == k.1,
            |k: (u32, u64)|
                {
                    let i = choose|i: int|
                        0 <= i < self.manifest_cache@.len() && (#[trigger] self.manifest_cache@[i]).depot_id
                            == k.0 && self.manifest_cache@[i].manifest_id == k.1;
                    self.manifest_cache@[i].manifest@
                },
        )
    }

    /// A store under `base_path`, with nothing cached.
    pub fn new(base_path: String) -> (s: Self)
        ensures
            s.base() == base_path@,
            s.cache() == Map::<(u32, u64), ManifestView>::empty(),
    {
        let s = ManifestStore { base_path, manifest_cache: Vec::new() };
        assert(s.cache() =~= Map::<(u32, u64), ManifestView>::empty());
        s
    }

    /// The manifest directory under a configuration directory, or under the
    /// current directory when there is none:
    /// `{config}/depot_downloader/manifests`.
    pub fn default_path_in(config: Option<String>) -> (path: String)
        ensures
            join_twice_result(base_or_current(config), app_dir_name(), manifests_dir_name(), path@),
    {
        proof {
            reveal_strlit(".");
            reveal_strlit("depot_downloader");
            reveal_strlit("manifests");
            lemma_app_dir_plain();
        }
        let base = match config {
            Some(c) => c,
            None => String::from_str("."),
        };
        assert(base@ == base_or_current(config));
        assert("depot_downloader"@ =~= app_dir_name());
        assert("manifests"@ =~= manifests_dir_name());
        let mid = join_path(base.as_str(), "depot_downloader");
        let path = join_path(mid.as_str(), "manifests");
        proof {
            lemma_join_twice(base@, app_dir_name(), manifests_dir_name(), mid@, path@);
        }
        path
    }

    /// The default manifest directory: `depot_downloader/manifests` under the
    /// user's configuration directory, which depends on the environment.
    pub fn default_path() -> (path: String)
        ensures
            exists|base: Seq<char>|
                join_twice_result(base, app_dir_name(), manifests_dir_name(), path@),
    {
        let c = config_dir();
        let ghost base = base_or_current(c);
        let path = Self::default_path_in(c);
        assert(join_twice_result(base, app_dir_name(), manifests_dir_name(), path@));
        path
    }

    /// The directory that manifests and keys are stored under.
    pub fn base_path(&self) -> (p: &String)
        ensures
            p@ == self.base(),
    {
        &self.base_path
    }

    /// The path of a stored manifest: `{base}/{depot}_{manifest}.manifest`.
    pub fn get_manifest_path(&self, depot_id: u32, manifest_id: u64) -> (path: String)
        ensures
            join_result(self.base(), manifest_file_name_text(depot_id, manifest_id), path@),
    {
        let name = manifest_file_name(depot_id, manifest_id);
        proof {
            lemma_manifest_name_plain(depot_id, manifest_id);
        }
        join_path(self.base_path.as_str(), name.as_str())
    }

    /// The path of an app's stored depot keys: `{base}/{app}.key`.
    pub fn get_depot_key_path(&self, app_id: u32) -> (path: String)
        ensures
            join_result(self.base(), key_file_name_text(app_id), path@),
    {
        let name = key_file_name(app_id);
        proof {
            lemma_key_name_plain(app_id);
        }
        join_path(self.base_path.as_str(), name.as_str())
    }

    /// Forgets every cached manifest.
    pub fn clear_cache(&mut self)
        ensures
            final(self).base() == old(self).base(),
            final(self).cache() == Map::<(u32, u64), ManifestView>::empty(),
    {
        self.manifest_cache = Vec::new();
        assert(self.cache() =~= Map::<(u32, u64), ManifestView>::empty());
    }

    fn cache_index(&self, depot_id: u32, manifest_id: u64) -> (r: Option<usize>)
        ensures
            r matches Some(i) ==> i < self.manifest_cache@.len()
                && self.manifest_cache@[i as int].depot_id == depot_id
                && self.manifest_cache@[i as int].manifest_id == manifest_id,
            r is None ==> forall|i: int|
                0 <= i < self.manifest_cache@.len() ==> !((#[trigger] self.manifest_cache@[i]).depot_id
                    == depot_id && self.manifest_cache@[i].manifest_id == manifest_id),
    {
        let mut i: usize = 0;
        while i < self.manifest_cache.len()
            invariant
                i <= self.manifest_cache.len(),
                forall|j: int|
                    0 <= j < i ==> !((#[trigger] self.manifest_cache@[j]).depot_id == depot_id
                        && self.manifest_cache@[j].manifest_id == manifest_id),
            decreases self.manifest_cache.len() - i,
        {
            if self.manifest_cache[i].depot_id == depot_id && self.manifest_cache[i].manifest_id
                == manifest_id {
                return Some(i);
            }
            i = i + 1;
        }
        None
    }

    /// Caches a manifest under its depot and manifest id, replacing any
    /// manifest cached under them before.
    pub fn cache_manifest(&mut self, depot_id: u32, manifest_id: u64, manifest: Manifest)
        ensures
            final(self).base() == old(self).base(),
            final(self).cache() == old(self).cache().insert((depot_id, manifest_id), manifest@),
    {
        proof {
            use_type_invariant(&*self);
        }
        let ghost old_cache = self.manifest_cache@;
        let ghost mv = manifest@;
        let entry = CachedManifest { depot_id, manifest_id, manifest };
        match self.cache_index(depot_id, manifest_id) {
            Some(i) => {
                let mut entries = Vec::new();
                std::mem::swap(&mut entries, &mut self.manifest_cache);
                entries.set(i, entry);
                let ghost new_cache = entries@;
                assert(new_cache == old_cache.update(i as int, entry));
                self.manifest_cache = entries;
                proof {
                    let k = (depot_id, manifest_id);
                    assert forall|key: (u32, u64)|
                        #[trigger] self.cache().contains_key(key) == old(self).cache().insert(
                            k,
                            mv,
                        ).contains_key(key) by {
                        if key != k && old(self).cache().contains_key(key) {
                            let j = choose|j: int|
                                0 <= j < old_cache.len() && (#[trigger] old_cache[j]).depot_id
                                    == key.0 && old_cache[j].manifest_id == key.1;
                            assert(new_cache[j] == old_cache[j]);
                        }
                        if self.cache().contains_key(key) && key != k {
                            let j = choose|j: int|
                                0 <= j < new_cache.len() && (#[trigger] new_cache[j]).depot_id
                                    == key.0 && new_cache[j].manifest_id == key.1;
                            assert(j != i);
                            assert(new_cache[j] == old_cache[j]);
                        }
                        if key == k {
                            assert(new_cache[i as int] == entry);
                        }
                    }
                    assert forall|key: (u32, u64)| #[trigger]
                        self.cache().contains_key(key) implies self.cache()[key] == old(
                            self,
                        ).cache().insert(k, mv)[key] by {
                        let j = choose|j: int|
                            0 <= j < new_cache.len() && (#[trigger] new_cache[j]).depot_id
                                == key.0 && new_cache[j].manifest_id == key.1;
                        if key == k {
                            assert(j == i);
                        } else {
                            assert(j != i);
                            assert(new_cache[j] == old_cache[j]);
                            let j2 = choose|j2: int|
                                0 <= j2 < old_cache.len() && (#[trigger] old_cache[j2]).depot_id
                                    == key.0 && old_cache[j2].manifest_id == key.1;
                            assert(j2 == j);
                        }
                    }
                    assert(self.cache() =~= old(self).cache().insert(k, mv));
                }
            },
            None => {
                let mut entries = Vec::new();
                std::mem::swap(&mut entries, &mut self.manifest_cache);
                entries.push(entry);
                let ghost new_cache = entries@;
                self.manifest_cache = entries;
                proof {
                    let k = (depot_id, manifest_id);
                    let n = old_cache.len() as int;
                    assert(new_cache[n] == entry);
                    assert forall|key: (u32, u64)|
                        #[trigger] self.cache().contains_key(key) == old(self).cache().insert(
                            k,
                            mv,
                        ).contains_key(key) by {
                        if key != k && old(self).cache().contains_key(key) {
                            let j = choose|j: int|
                                0 <= j < old_cache.len() && (#[trigger] old_cache[j]).depot_id
                                    == key.0 && old_cache[j].manifest_id == key.1;
                            assert(new_cache[j] == old_cache[j]);
                        }
                        if self.cache().contains_key(key) && key != k {
                            let j = choose|j: int|
                                0 <= j < new_cache.len() && (#[trigger] new_cache[j]).depot_id
                                    == key.0 && new_cache[j].manifest_id == key.1;
                            assert(j != n);
                            assert(new_cache[j] == old_cache[j]);
                        }
                    }
                    assert forall|key: (u32, u64)| #[trigger]
                        self.cache().contains_key(key) implies self.cache()[key] == old(
                            self,
                        ).cache().insert(k, mv)[key] by {
                        let j = choose|j: int|
                            0 <= j < new_cache.len() && (#[trigger] new_cache[j]).depot_id
                                == key.0 && new_cache[j].manifest_id == key.1;
                        if key == k {
                            assert(j == n);
                        } else {
                            assert(j != n);
                            assert(new_cache[j] == old_cache[j]);
                            let j2 = choose|j2: int|
                                0 <= j2 < old_cache.len() && (#[trigger] old_cache[j2]).depot_id
                                    == key.0 && old_cache[j2].manifest_id == key.1;
                            assert(j2 == j);
                        }
                    }
                    assert(self.cache() =~= old(self).cache().insert(k, mv));
                }
            },
        }
    }

    /// A copy of the manifest cached under the given ids, if there is one.
    pub fn cached_manifest(&self, depot_id: u32, manifest_id: u64) -> (r: Option<Manifest>)
        ensures
            self.cache().contains_key((depot_id, manifest_id)) ==> (r matches Some(m) && m@
                == self.cache()[(depot_id, manifest_id)]),
            !self.cache().contains_key((depot_id, manifest_id)) ==> r is None,
    {
        proof {
            use_type_invariant(self);
        }
        match self.cache_index(depot_id, manifest_id) {
            Some(i) => {
                proof {
                    let k = (depot_id, manifest_id);
                    assert(self.cache().contains_key(k));
                    let j = choose|j: int|
                        0 <= j < self.manifest_cache@.len() && (
                        #[trigger] self.manifest_cache@[j]).depot_id == k.0
                            && self.manifest_cache@[j].manifest_id == k.1;
                    assert(j == i);
                }
                Some(self.manifest_cache[i].manifest.copy())
            },
            None => None,
        }
    }
}

/// A manifest cached under a depot and manifest id is the one read back
/// for them, until the cache is cleared; the entries under other ids stay as
/// they were.
pub proof fn law_cache_read_after_write(
    cache: Map<(u32, u64), ManifestView>,
    ids: (u32, u64),
    m: ManifestView,
    other: (u32, u64),
)
    ensures
        cache.insert(ids, m).contains_key(ids),
        cache.insert(ids, m)[ids] == m,
        other != ids ==> cache.insert(ids, m).contains_key(other) == cache.contains_key(other),
        other != ids && cache.contains_key(other) ==> cache.insert(ids, m)[other] == cache[other],
        !Map::<(u32, u64), ManifestView>::empty().contains_key(ids),
{
}

impl Default for ManifestStore {
    /// A store under the default manifest directory, with nothing cached.
    fn default() -> (s: Self)
        ensures
            exists|base: Seq<char>|
                join_twice_result(base, app_dir_name(), manifests_dir_name(), s.base()),
            s.cache() == Map::<(u32, u64), ManifestView>::empty(),
    {
        Self::new(Self::default_path())
    }
}

/// The directory given, or the current directory `.` when there is none.
pub open spec fn base_or_current(dir: Option<String>) -> Seq<char> {
    match dir {
        Some(d) => d@,
        None => seq!['.'],
    }
}

pub open spec fn app_dir_name() -> Seq<char> {
    seq!['d', 'e', 'p', 'o', 't', '_', 'd', 'o', 'w', 'n', 'l', 'o', 'a', 'd', 'e', 'r']
}

pub open spec fn manifests_dir_name() -> Seq<char> {
    seq!['m', 'a', 'n', 'i', 'f', 'e', 's', 't', 's']
}

proof fn lemma_app_dir_plain()
    ensures
        kept_component(app_dir_name()),
        kept_component(manifests_dir_name()),
{
    assert(kept_component(app_dir_name()));
    assert(kept_component(manifests_dir_name()));
}

} // verus!
