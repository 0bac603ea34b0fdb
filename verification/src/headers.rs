//! Header maps: the `http` crate's `HeaderMap` behind trusted items, a model of
//! its contents, lookups, printable values, span attributes built from headers,
//! and the insertion that trace-context injection performs.
use crate::text::{push_char, str_equal, to_owned_string};
use http::header::HeaderName;
use http::{HeaderMap, HeaderValue};
use vstd::prelude::*;
use vstd::string::StringSliceAdditionalSpecFns;
use vstd::utf8::encode_utf8;

verus! {

#[verifier::external_type_specification]
#[verifier::external_body]
#[verifier::reject_recursive_types(T)]
pub struct ExHeaderMap<T>(HeaderMap<T>);

#[verifier::external_type_specification]
#[verifier::external_body]
pub struct ExHeaderValue(HeaderValue);

/// A header entry: the normalised (lower-case) name and the value's bytes.
pub type Entry = (Seq<char>, Seq<u8>);

/// The contents of a header map: its (name, value) pairs in the order in which
/// `HeaderMap::iter` yields them.
pub uninterp spec fn header_entries(map: HeaderMap<HeaderValue>) -> Seq<(Seq<char>, Seq<u8>)>;

/// A `tchar` of RFC 9110: the characters a header name may hold.
pub open spec fn is_token_char(c: char) -> bool {
    let n = c as u32;
    ||| 97 <= n <= 122
    ||| 65 <= n <= 90
    ||| 48 <= n <= 57
    ||| n == 33 || n == 35 || n == 36 || n == 37 || n == 38 || n == 39
    ||| n == 42 || n == 43 || n == 45 || n == 46
    ||| n == 94 || n == 95 || n == 96 || n == 124 || n == 126
}

/// ASCII lower-casing of one character.
pub open spec fn lower_char(c: char) -> char {
    let n = c as u32;
    if 65 <= n <= 90 {
        ((n + 32) as u32) as char
    } else {
        c
    }
}

/// The header name that a key denotes: the key lower-cased, when it is a
/// non-empty token of at most 65535 characters.
pub open spec fn header_name_of(key: Seq<char>) -> Option<Seq<char>> {
    if 1 <= key.len() <= 65535 && forall|i: int| 0 <= i < key.len() ==> is_token_char(#[trigger] key[i]) {
        Some(key.map_values(|c: char| lower_char(c)))
    } else {
        None
    }
}

/// The first value stored under `name`.
pub open spec fn first_value(entries: Seq<Entry>, name: Seq<char>) -> Option<Seq<u8>>
    decreases entries.len(),
{
    if entries.len() == 0 {
        None
    } else if entries[0].0 == name {
        Some(entries[0].1)
    } else {
        first_value(entries.drop_first(), name)
    }
}

/// What `HeaderMap::get` returns for a key: the first value of the name that the
/// key denotes, and nothing for a key that denotes no name.
pub open spec fn lookup(entries: Seq<Entry>, key: Seq<char>) -> Option<Seq<u8>> {
    match header_name_of(key) {
        Some(name) => first_value(entries, name),
        None => None,
    }
}

/// The entries with every entry of `name` taken out.
pub open spec fn remove_name(entries: Seq<Entry>, name: Seq<char>) -> Seq<Entry>
    decreases entries.len(),
{
    if entries.len() == 0 {
        entries
    } else if entries[0].0 == name {
        remove_name(entries.drop_first(), name)
    } else {
        seq![entries[0]] + remove_name(entries.drop_first(), name)
    }
}

/// What `HeaderMap::insert` makes of the entries: the first entry of `name`
/// takes the new value and the later ones go; a new name goes last.
pub open spec fn insert_entry(entries: Seq<Entry>, name: Seq<char>, value: Seq<u8>) -> Seq<Entry>
    decreases entries.len(),
{
    if entries.len() == 0 {
        seq![(name, value)]
    } else if entries[0].0 == name {
        seq![(name, value)] + remove_name(entries.drop_first(), name)
    } else {
        seq![entries[0]] + insert_entry(entries.drop_first(), name, value)
    }
}

/// The names that occur in the entries.
pub open spec fn entry_names(entries: Seq<Entry>) -> Set<Seq<char>> {
    entries.map_values(|e: Entry| e.0).to_set()
}

/// The number of distinct names below which `HeaderMap::insert` never needs a
/// table of more than 2^15 slots, whatever state the table is in: it grows the
/// table when the names fill its usable part or, after many collisions, when
/// five times the names reach the slots; below 6554 names neither asks for more
/// than 2^15 slots.
pub open spec fn insert_capacity() -> nat {
    6554
}

/// A byte that `HeaderValue::to_str` accepts: visible ASCII or a tab.
pub open spec fn is_visible_ascii(b: u8) -> bool {
    (32 <= b && b < 127) || b == 9
}

/// A byte that a `HeaderValue` may hold.
pub open spec fn is_value_byte(b: u8) -> bool {
    (32 <= b && b != 127) || b == 9
}

/// The characters of bytes read one for one.
pub open spec fn ascii_chars(bytes: Seq<u8>) -> Seq<char> {
    bytes.map_values(|b: u8| b as char)
}

/// What `HeaderValue::to_str` gives for a value's bytes: the text when every
/// byte is visible ASCII, nothing otherwise.
pub open spec fn header_value_text(bytes: Seq<u8>) -> Option<Seq<char>> {
    if forall|i: int| 0 <= i < bytes.len() ==> is_visible_ascii(#[trigger] bytes[i]) {
        Some(ascii_chars(bytes))
    } else {
        None
    }
}

/// The printable text stored under a key.
pub open spec fn lookup_text(entries: Seq<Entry>, key: Seq<char>) -> Option<Seq<char>> {
    match lookup(entries, key) {
        Some(v) => header_value_text(v),
        None => None,
    }
}

/// Calls `HeaderMap::get` with a string key and hands the value out as bytes.
/// The map parses the key as a header name (lower-casing it) and returns the
/// first value stored under that name; a key that is no header name finds
/// nothing.
#[verifier::external_body]
pub(crate) fn header_map_get(map: &HeaderMap<HeaderValue>, key: &str) -> (r: Option<Vec<u8>>)
    ensures
        r.deep_view() == lookup(header_entries(*map), key@),
{
    map.get(key).map(|v| v.as_bytes().to_vec())
}

/// Calls `HeaderMap::iter` and hands every (name, value) pair out as a string
/// and bytes, in iteration order.
#[verifier::external_body]
pub(crate) fn header_map_entries(map: &HeaderMap<HeaderValue>) -> (r: Vec<(String, Vec<u8>)>)
    ensures
        r.deep_view() == header_entries(*map),
{
    map.iter().map(|(k, v)| (k.as_str().to_string(), v.as_bytes().to_vec())).collect()
}

/// Calls `HeaderMap::try_insert` with the name parsed by
/// `HeaderName::from_bytes` and the value parsed by `HeaderValue::from_str`, both
/// of which succeed on the arguments that `requires` admits, and reports whether
/// it succeeded. On success every value of the name is replaced by the new one,
/// in the place of the first, or a new name is appended. It fails, leaving the
/// entries as they were, only when the map's table would grow past 2^15 slots;
/// below `insert_capacity` distinct names it never does.
#[verifier::external_body]
fn header_map_try_insert(map: &mut HeaderMap<HeaderValue>, name: &str, value: &str) -> (r: bool)
    requires
        header_name_of(name@) is Some,
        forall|i: int| 0 <= i < value.spec_bytes().len() ==> is_value_byte(#[trigger] value.spec_bytes()[i]),
    ensures
        r ==> header_entries(*final(map)) == insert_entry(
            header_entries(*old(map)),
            header_name_of(name@)->0,
            value.spec_bytes(),
        ),
        !r ==> header_entries(*final(map)) == header_entries(*old(map)),
        entry_names(header_entries(*old(map))).len() < insert_capacity() ==> r,
{
    map.try_insert(
        HeaderName::from_bytes(name.as_bytes()).unwrap(),
        HeaderValue::from_str(value).unwrap(),
    ).is_ok()
}

/// `HeaderValue::to_str` on a value's bytes: the text when every byte is visible
/// ASCII.
pub fn header_value_to_str(bytes: &Vec<u8>) -> (r: Option<String>)
    ensures
        r.deep_view() == header_value_text(bytes@),
{
    let n = bytes.len();
    let mut i: usize = 0;
    while i < n
        invariant
            n == bytes@.len(),
            0 <= i <= n,
            forall|j: int| 0 <= j < i ==> is_visible_ascii(#[trigger] bytes@[j]),
        decreases n - i,
    {
        let b = bytes[i];
        if !((32 <= b && b < 127) || b == 9) {
            assert(!is_visible_ascii(bytes@[i as int]));
            return None;
        }
        i = i + 1;
    }
    let mut s = String::new();
    let mut k: usize = 0;
    while k < n
        invariant
            n == bytes@.len(),
            0 <= k <= n,
            s@ == ascii_chars(bytes@.take(k as int)),
        decreases n - k,
    {
        let b = bytes[k];
        push_char(&mut s, b as char);
        proof {
            assert(bytes@.take(k + 1) == bytes@.take(k as int).push(b));
        }
        k = k + 1;
    }
    assert(bytes@.take(n as int) == bytes@);
    Some(s)
}

/// The printable text stored under a key, as `get` followed by `to_str`.
pub fn header_text(map: &HeaderMap<HeaderValue>, key: &str) -> (r: Option<String>)
    ensures
        r.deep_view() == lookup_text(header_entries(*map), key@),
{
    let found = header_map_get(map, key);
    match found {
        Some(v) => {
            assert(lookup(header_entries(*map), key@) == Some(v@));
            header_value_to_str(&v)
        },
        None => None,
    }
}


/// What a header injector does with a (key, value) pair: the pair is inserted
/// when the key is a header name and the value's bytes may stand in a header
/// value; otherwise the entries stay as they are.
pub open spec fn injected(entries: Seq<Entry>, key: Seq<char>, value: Seq<u8>) -> Seq<Entry> {
    match header_name_of(key) {
        Some(name) => if forall|i: int| 0 <= i < value.len() ==> is_value_byte(#[trigger] value[i]) {
            insert_entry(entries, name, value)
        } else {
            entries
        },
        None => entries,
    }
}

/// Whether a key denotes a header name, as `HeaderName::from_bytes` decides it.
pub fn is_valid_header_key(key: &str) -> (r: bool)
    ensures
        r == (header_name_of(key@) is Some),
{
    let n = key.unicode_len();
    if n == 0 || n > 65535 {
        return false;
    }
    let mut i: usize = 0;
    while i < n
        invariant
            n == key@.len(),
            0 <= i <= n,
            forall|j: int| 0 <= j < i ==> is_token_char(#[trigger] key@[j]),
        decreases n - i,
    {
        let c = key.get_char(i);
        let v = c as u32;
        let ok = (97 <= v && v <= 122) || (65 <= v && v <= 90) || (48 <= v && v <= 57) || v == 33
            || v == 35 || v == 36 || v == 37 || v == 38 || v == 39 || v == 42 || v == 43 || v == 45
            || v == 46 || v == 94 || v == 95 || v == 96 || v == 124 || v == 126;
        if !ok {
            assert(!is_token_char(key@[i as int]));
            return false;
        }
        i = i + 1;
    }
    true
}

/// Whether every byte of a string may stand in a header value, as
/// `HeaderValue::from_str` decides it.
pub fn is_valid_header_value(value: &str) -> (r: bool)
    ensures
        r == forall|i: int| 0 <= i < value.spec_bytes().len() ==> is_value_byte(#[trigger] value.spec_bytes()[i]),
{
    let bytes = value.as_bytes();
    let n = bytes.len();
    let mut i: usize = 0;
    while i < n
        invariant
            n == bytes@.len(),
            bytes@ == value.spec_bytes(),
            0 <= i <= n,
            forall|j: int| 0 <= j < i ==> is_value_byte(#[trigger] bytes@[j]),
        decreases n - i,
    {
        let b = bytes[i];
        if !((32 <= b && b != 127) || b == 9) {
            assert(!is_value_byte(bytes@[i as int]));
            return false;
        }
        i = i + 1;
    }
    true
}

/// Sets a key and value in the header map; does nothing if the key or the
/// value is not a valid input. It reports `false` only when the map's table
/// has no room for the pair (where `HeaderMap::insert` panics); the map then
/// stays as it was.
pub fn inject_header(map: &mut HeaderMap<HeaderValue>, key: &str, value: &str) -> (r: bool)
    ensures
        r ==> header_entries(*final(map)) == injected(header_entries(*old(map)), key@, value.spec_bytes()),
        !r ==> header_entries(*final(map)) == header_entries(*old(map)),
        !r ==> entry_names(header_entries(*old(map))).len() >= insert_capacity(),
        !r ==> header_name_of(key@) is Some,
{
    if is_valid_header_key(key) && is_valid_header_value(value) {
        header_map_try_insert(map, key, value)
    } else {
        true
    }
}

/// A (key, value) text field that a propagator writes.
pub type Field = (Seq<char>, Seq<char>);

/// The entries after the fields have been injected one after the other, each
/// value taken by its UTF-8 bytes, where `done` tells which injections took
/// place.
pub open spec fn injected_steps(entries: Seq<Entry>, fields: Seq<Field>, done: Seq<bool>) -> Seq<Entry>
    decreases fields.len(),
{
    if fields.len() == 0 {
        entries
    } else {
        let mid = injected_steps(entries, fields.drop_last(), done.drop_last());
        if done.last() {
            injected(mid, fields.last().0, encode_utf8(fields.last().1))
        } else {
            mid
        }
    }
}

/// Every injection that did not take place met a map whose table was full: one
/// holding at least `insert_capacity` names.
pub open spec fn skipped_only_when_full(entries: Seq<Entry>, fields: Seq<Field>, done: Seq<bool>) -> bool
    decreases fields.len(),
{
    fields.len() == 0 || {
        &&& skipped_only_when_full(entries, fields.drop_last(), done.drop_last())
        &&& (done.last() || entry_names(injected_steps(entries, fields.drop_last(), done.drop_last())).len()
            >= insert_capacity())
    }
}

/// `after` is what injecting the fields into `before` gives, each field set in
/// turn unless the map's table had no room left.
pub open spec fn injected_fields(before: Seq<Entry>, fields: Seq<Field>, after: Seq<Entry>) -> bool {
    exists|done: Seq<bool>|
        {
            &&& done.len() == fields.len()
            &&& skipped_only_when_full(before, fields, done)
            &&& #[trigger] injected_steps(before, fields, done) == after
        }
}

/// Whether `after` is what injecting some list of fields into `before` gives.
pub open spec fn propagated_into(before: Seq<Entry>, after: Seq<Entry>) -> bool {
    exists|fields: Seq<Field>| #[trigger] injected_fields(before, fields, after)
}

/// The fields whose key is `key`, in order.
pub open spec fn fields_with_key(fields: Seq<Field>, key: Seq<char>) -> Seq<Field>
    decreases fields.len(),
{
    if fields.len() == 0 {
        seq![]
    } else {
        let rest = fields_with_key(fields.drop_last(), key);
        if fields.last().0 == key {
            rest.push(fields.last())
        } else {
            rest
        }
    }
}

/// The fields whose key is none of `keys`, in order.
pub open spec fn fields_without_keys(fields: Seq<Field>, keys: Seq<Seq<char>>) -> Seq<Field>
    decreases fields.len(),
{
    if fields.len() == 0 {
        seq![]
    } else {
        let rest = fields_without_keys(fields.drop_last(), keys);
        if keys.contains(fields.last().0) {
            rest
        } else {
            rest.push(fields.last())
        }
    }
}

/// The fields grouped by `keys`: first those of the first key, then those of
/// the second, and so on.
pub open spec fn fields_by_keys(fields: Seq<Field>, keys: Seq<Seq<char>>) -> Seq<Field>
    decreases keys.len(),
{
    if keys.len() == 0 {
        seq![]
    } else {
        fields_by_keys(fields, keys.drop_last()) + fields_with_key(fields, keys.last())
    }
}

/// The fields in the order of `keys`, followed by the fields of other keys in
/// their own order.
pub open spec fn ordered_fields(fields: Seq<Field>, keys: Seq<Seq<char>>) -> Seq<Field> {
    fields_by_keys(fields, keys) + fields_without_keys(fields, keys)
}

/// Whether `key` is one of `keys`.
fn contains_key(keys: &Vec<String>, key: &str) -> (r: bool)
    ensures
        r == keys.deep_view().contains(key@),
{
    let ghost model = keys.deep_view();
    let n = keys.len();
    let mut i: usize = 0;
    while i < n
        invariant
            n == keys.len(),
            model == keys.deep_view(),
            0 <= i <= n,
            forall|j: int| 0 <= j < i ==> model[j] != key@,
        decreases n - i,
    {
        assert(model[i as int] == keys@[i as int]@);
        if str_equal(keys[i].as_str(), key) {
            assert(model[i as int] == key@);
            return true;
        }
        i = i + 1;
    }
    false
}

/// Puts the fields in the order of `keys` (a propagator's field names), and
/// the fields of other keys after them in their own order.
pub fn order_fields(fields: &Vec<(String, String)>, keys: &Vec<String>) -> (r: Vec<(String, String)>)
    ensures
        r.deep_view() == ordered_fields(fields.deep_view(), keys.deep_view()),
{
    let ghost f = fields.deep_view();
    let ghost k = keys.deep_view();
    let n = fields.len();
    let m = keys.len();
    let mut out: Vec<(String, String)> = Vec::new();
    let mut i: usize = 0;
    assert(k.take(0) =~= Seq::<Seq<char>>::empty());
    while i < m
        invariant
            n == fields.len(),
            m == keys.len(),
            f == fields.deep_view(),
            k == keys.deep_view(),
            0 <= i <= m,
            out.deep_view() == fields_by_keys(f, k.take(i as int)),
        decreases m - i,
    {
        let key = keys[i].as_str();
        let ghost base = out.deep_view();
        let mut j: usize = 0;
        assert(f.take(0) =~= Seq::<Field>::empty());
        assert(base + fields_with_key(f.take(0), key@) =~= base);
        while j < n
            invariant
                n == fields.len(),
                f == fields.deep_view(),
                0 <= j <= n,
                out.deep_view() == base + fields_with_key(f.take(j as int), key@),
            decreases n - j,
        {
            proof {
                assert(f.take(j + 1).drop_last() =~= f.take(j as int));
                assert(f.take(j + 1).last() == f[j as int]);
                assert(f[j as int] == (fields@[j as int].0@, fields@[j as int].1@));
            }
            if str_equal(fields[j].0.as_str(), key) {
                let ghost prev = out.deep_view();
                out.push((fields[j].0.clone(), fields[j].1.clone()));
                assert(out.deep_view() =~= prev.push(f[j as int]));
            }
            j = j + 1;
        }
        proof {
            assert(f.take(n as int) =~= f);
            assert(k.take(i + 1).drop_last() =~= k.take(i as int));
            assert(k.take(i + 1).last() == k[i as int]);
            assert(k[i as int] == key@);
        }
        i = i + 1;
    }
    assert(k.take(m as int) =~= k);
    let ghost grouped = out.deep_view();
    let mut j: usize = 0;
    assert(f.take(0) =~= Seq::<Field>::empty());
    assert(grouped + fields_without_keys(f.take(0), k) =~= grouped);
    while j < n
        invariant
            n == fields.len(),
            f == fields.deep_view(),
            k == keys.deep_view(),
            0 <= j <= n,
            out.deep_view() == grouped + fields_without_keys(f.take(j as int), k),
        decreases n - j,
    {
        proof {
            assert(f.take(j + 1).drop_last() =~= f.take(j as int));
            assert(f.take(j + 1).last() == f[j as int]);
            assert(f[j as int] == (fields@[j as int].0@, fields@[j as int].1@));
        }
        if !contains_key(keys, fields[j].0.as_str()) {
            let ghost prev = out.deep_view();
            out.push((fields[j].0.clone(), fields[j].1.clone()));
            assert(out.deep_view() =~= prev.push(f[j as int]));
        }
        j = j + 1;
    }
    assert(f.take(n as int) =~= f);
    out
}

/// Injects the (key, value) fields into the header map in order, each one
/// unless the map's table has no room left for it.
pub fn inject_fields(map: &mut HeaderMap<HeaderValue>, fields: &Vec<(String, String)>)
    ensures
        injected_fields(header_entries(*old(map)), fields.deep_view(), header_entries(*final(map))),
{
    let ghost start = header_entries(*map);
    let ghost model = fields.deep_view();
    let ghost mut done: Seq<bool> = seq![];
    let n = fields.len();
    let mut i: usize = 0;
    assert(model.take(0) =~= Seq::<Field>::empty());
    while i < n
        invariant
            n == fields.len(),
            model == fields.deep_view(),
            0 <= i <= n,
            done.len() == i,
            skipped_only_when_full(start, model.take(i as int), done),
            header_entries(*map) == injected_steps(start, model.take(i as int), done),
        decreases n - i,
    {
        let key = fields[i].0.as_str();
        let value = fields[i].1.as_str();
        let ghost before = header_entries(*map);
        let ok = inject_header(map, key, value);
        proof {
            assert(model[i as int] == (key@, value@));
            let next = model.take(i + 1);
            assert(next.drop_last() =~= model.take(i as int));
            assert(next.last() == model[i as int]);
            let d2 = done.push(ok);
            assert(d2.drop_last() =~= done);
            assert(d2.last() == ok);
            done = d2;
        }
        i = i + 1;
    }
    assert(model.take(n as int) =~= model);
}

/// Whether a name occurs in the entries.
spec fn has_name(entries: Seq<Entry>, x: Seq<char>) -> bool {
    exists|i: int| 0 <= i < entries.len() && (#[trigger] entries[i]).0 == x
}

proof fn lemma_entry_names_has_name(entries: Seq<Entry>, x: Seq<char>)
    ensures
        entry_names(entries).contains(x) <==> has_name(entries, x),
{
    let m = entries.map_values(|e: Entry| e.0);
    if has_name(entries, x) {
        let i = choose|i: int| 0 <= i < entries.len() && (#[trigger] entries[i]).0 == x;
        assert(m[i] == x);
    }
    if m.contains(x) {
        let j = choose|j: int| 0 <= j < m.len() && m[j] == x;
        assert(entries[j].0 == x);
    }
}

proof fn lemma_remove_name_keeps_names(entries: Seq<Entry>, removed: Seq<char>, x: Seq<char>)
    requires
        x != removed,
        has_name(entries, x),
    ensures
        has_name(remove_name(entries, removed), x),
    decreases entries.len(),
{
    let rest = entries.drop_first();
    if entries[0].0 == x {
        let r = seq![entries[0]] + remove_name(rest, removed);
        assert(r[0] == entries[0]);
    } else {
        let i = choose|i: int| 0 <= i < entries.len() && (#[trigger] entries[i]).0 == x;
        assert(rest[i - 1] == entries[i]);
        lemma_remove_name_keeps_names(rest, removed, x);
        if entries[0].0 != removed {
            let r0 = remove_name(rest, removed);
            let j = choose|j: int| 0 <= j < r0.len() && (#[trigger] r0[j]).0 == x;
            let r = seq![entries[0]] + r0;
            assert(r[j + 1] == r0[j]);
        }
    }
}

proof fn lemma_insert_entry_keeps_names(entries: Seq<Entry>, name: Seq<char>, value: Seq<u8>, x: Seq<char>)
    requires
        has_name(entries, x),
    ensures
        has_name(insert_entry(entries, name, value), x),
    decreases entries.len(),
{
    let rest = entries.drop_first();
    if entries[0].0 == name {
        let r0 = remove_name(rest, name);
        let r = seq![(name, value)] + r0;
        if x == name {
            assert(r[0] == (name, value));
        } else {
            let i = choose|i: int| 0 <= i < entries.len() && (#[trigger] entries[i]).0 == x;
            assert(rest[i - 1] == entries[i]);
            lemma_remove_name_keeps_names(rest, name, x);
            let j = choose|j: int| 0 <= j < r0.len() && (#[trigger] r0[j]).0 == x;
            assert(r[j + 1] == r0[j]);
        }
    } else {
        let r0 = insert_entry(rest, name, value);
        let r = seq![entries[0]] + r0;
        if entries[0].0 == x {
            assert(r[0] == entries[0]);
        } else {
            let i = choose|i: int| 0 <= i < entries.len() && (#[trigger] entries[i]).0 == x;
            assert(rest[i - 1] == entries[i]);
            lemma_insert_entry_keeps_names(rest, name, value, x);
            let j = choose|j: int| 0 <= j < r0.len() && (#[trigger] r0[j]).0 == x;
            assert(r[j + 1] == r0[j]);
        }
    }
}

proof fn lemma_injected_keeps(entries: Seq<Entry>, key: Seq<char>, value: Seq<u8>, name: Seq<char>)
    ensures
        entry_names(entries).subset_of(entry_names(injected(entries, key, value))),
        header_name_of(key) != Some(name) ==> first_value(injected(entries, key, value), name)
            == first_value(entries, name),
{
    let after = injected(entries, key, value);
    assert forall|x: Seq<char>| entry_names(entries).contains(x) implies entry_names(after).contains(x) by {
        lemma_entry_names_has_name(entries, x);
        lemma_entry_names_has_name(after, x);
        if let Some(n) = header_name_of(key) {
            lemma_insert_entry_keeps_names(entries, n, value, x);
        }
    }
    if let Some(n) = header_name_of(key) {
        lemma_insert_entry_first_value(entries, n, value, name);
    }
}

/// Injecting fields keeps every name that the headers held, and every name
/// that no field's key denotes keeps its first value.
pub proof fn lemma_injected_steps_keep_headers(
    entries: Seq<Entry>,
    fields: Seq<Field>,
    done: Seq<bool>,
    name: Seq<char>,
)
    ensures
        entry_names(entries).subset_of(entry_names(injected_steps(entries, fields, done))),
        (forall|i: int| 0 <= i < fields.len() ==> header_name_of(#[trigger] fields[i].0) != Some(name))
            ==> first_value(injected_steps(entries, fields, done), name) == first_value(entries, name),
    decreases fields.len(),
{
    if fields.len() > 0 {
        let init = fields.drop_last();
        lemma_injected_steps_keep_headers(entries, init, done.drop_last(), name);
        let mid = injected_steps(entries, init, done.drop_last());
        lemma_injected_keeps(mid, fields.last().0, encode_utf8(fields.last().1), name);
        if forall|i: int| 0 <= i < fields.len() ==> header_name_of(#[trigger] fields[i].0) != Some(name) {
            assert forall|i: int| 0 <= i < init.len() implies header_name_of(#[trigger] init[i].0) != Some(name) by {
                assert(init[i] == fields[i]);
            }
            assert(header_name_of(fields[fields.len() - 1].0) != Some(name));
        }
    }
}

/// A field that was set, whose key is a header name and whose value may stand
/// in a header, reads back as its value once all fields are injected, unless a
/// later field names the same header.
pub proof fn lemma_injected_field_reads_back(entries: Seq<Entry>, fields: Seq<Field>, done: Seq<bool>, i: int)
    requires
        0 <= i < fields.len(),
        done.len() == fields.len(),
        done[i],
        header_name_of(fields[i].0) is Some,
        forall|b: int| 0 <= b < encode_utf8(fields[i].1).len() ==> is_value_byte(#[trigger] encode_utf8(fields[i].1)[b]),
        forall|j: int| i < j < fields.len() ==> header_name_of(#[trigger] fields[j].0) != header_name_of(fields[i].0),
    ensures
        lookup(injected_steps(entries, fields, done), fields[i].0) == Some(encode_utf8(fields[i].1)),
    decreases fields.len(),
{
    let init = fields.drop_last();
    let dinit = done.drop_last();
    let mid = injected_steps(entries, init, dinit);
    let last = fields.len() - 1;
    if i == last {
        assert(fields.last() == fields[i]);
        assert(done.last());
        lemma_inject_then_lookup(mid, fields[i].0, encode_utf8(fields[i].1), fields[i].0);
    } else {
        assert(init[i] == fields[i]);
        assert(dinit[i] == done[i]);
        assert forall|j: int| i < j < init.len() implies header_name_of(#[trigger] init[j].0) != header_name_of(
            init[i].0,
        ) by {
            assert(init[j] == fields[j]);
        }
        lemma_injected_field_reads_back(entries, init, dinit, i);
        let name = header_name_of(fields[i].0)->0;
        assert(header_name_of(fields[last].0) != Some(name));
        lemma_injected_keeps(mid, fields.last().0, encode_utf8(fields.last().1), name);
    }
}

/// Trace-context propagation into headers keeps every name that they held, and
/// each name that no written field denotes keeps its first value.
pub proof fn lemma_propagation_keeps_headers(before: Seq<Entry>, fields: Seq<Field>, after: Seq<Entry>, name: Seq<char>)
    requires
        injected_fields(before, fields, after),
    ensures
        entry_names(before).subset_of(entry_names(after)),
        (forall|i: int| 0 <= i < fields.len() ==> header_name_of(#[trigger] fields[i].0) != Some(name))
            ==> first_value(after, name) == first_value(before, name),
{
    let done = choose|done: Seq<bool>|
        {
            &&& done.len() == fields.len()
            &&& skipped_only_when_full(before, fields, done)
            &&& #[trigger] injected_steps(before, fields, done) == after
        };
    lemma_injected_steps_keep_headers(before, fields, done, name);
}

/// The first value of a name in `remove_name(entries, removed)` is its first
/// value in `entries`, for every other name.
pub proof fn lemma_remove_name_keeps_others(entries: Seq<Entry>, removed: Seq<char>, name: Seq<char>)
    requires
        name != removed,
    ensures
        first_value(remove_name(entries, removed), name) == first_value(entries, name),
    decreases entries.len(),
{
    if entries.len() > 0 {
        lemma_remove_name_keeps_others(entries.drop_first(), removed, name);
        if entries[0].0 != removed {
            let rest = remove_name(entries.drop_first(), removed);
            assert((seq![entries[0]] + rest)[0] == entries[0]);
            assert((seq![entries[0]] + rest).drop_first() == rest);
        }
    }
}

/// After an insertion, the name holds the inserted value first, and every
/// other name holds what it held before.
pub proof fn lemma_insert_entry_first_value(entries: Seq<Entry>, name: Seq<char>, value: Seq<u8>, other: Seq<char>)
    ensures
        first_value(insert_entry(entries, name, value), name) == Some(value),
        other != name ==> first_value(insert_entry(entries, name, value), other) == first_value(entries, other),
    decreases entries.len(),
{
    if entries.len() == 0 {
        if other != name {
            assert(first_value(seq![(name, value)], other) == first_value(
                seq![(name, value)].drop_first(),
                other,
            ));
            assert(seq![(name, value)].drop_first().len() == 0);
        }
    } else if entries[0].0 == name {
        let rest = remove_name(entries.drop_first(), name);
        let ins = seq![(name, value)] + rest;
        assert(ins[0] == (name, value));
        assert(ins.drop_first() == rest);
        if other != name {
            lemma_remove_name_keeps_others(entries.drop_first(), name, other);
        }
    } else {
        lemma_insert_entry_first_value(entries.drop_first(), name, value, other);
        let rest = insert_entry(entries.drop_first(), name, value);
        let ins = seq![entries[0]] + rest;
        assert(ins[0] == entries[0]);
        assert(ins.drop_first() == rest);
    }
}

/// Reading back what an injector wrote: once a valid key and value have been
/// set, looking the key up gives the value, and every key that denotes another
/// name gives what it gave before.
pub proof fn lemma_inject_then_lookup(entries: Seq<Entry>, key: Seq<char>, value: Seq<u8>, other: Seq<char>)
    requires
        header_name_of(key) is Some,
        forall|i: int| 0 <= i < value.len() ==> is_value_byte(#[trigger] value[i]),
    ensures
        lookup(injected(entries, key, value), key) == Some(value),
        header_name_of(other) != header_name_of(key) ==> lookup(injected(entries, key, value), other)
            == lookup(entries, other),
{
    let name = header_name_of(key)->0;
    lemma_insert_entry_first_value(entries, name, value, name);
    match header_name_of(other) {
        Some(n2) => {
            lemma_insert_entry_first_value(entries, name, value, n2);
        },
        None => {},
    }
}

/// The span attributes made from headers: for every entry whose value is
/// printable, in order, the prefixed name and the value's text.
pub open spec fn header_attributes(entries: Seq<Entry>, prefix: Seq<char>) -> Seq<(Seq<char>, Seq<char>)>
    decreases entries.len(),
{
    if entries.len() == 0 {
        seq![]
    } else {
        let rest = header_attributes(entries.drop_last(), prefix);
        match header_value_text(entries.last().1) {
            Some(text) => rest.push((prefix + entries.last().0, text)),
            None => rest,
        }
    }
}

/// The attribute prefix of request headers.
pub open spec fn request_header_prefix() -> Seq<char> {
    "http.request.header."@
}

/// The attribute prefix of response headers.
pub open spec fn response_header_prefix() -> Seq<char> {
    "http.response.header."@
}

proof fn lemma_header_attributes_prefix(entries: Seq<Entry>, p1: Seq<char>, p2: Seq<char>)
    ensures
        header_attributes(entries, p2).len() == header_attributes(entries, p1).len(),
        forall|i: int|
            0 <= i < header_attributes(entries, p1).len() ==> {
                &&& (#[trigger] header_attributes(entries, p2)[i]).1 == header_attributes(entries, p1)[i].1
                &&& header_attributes(entries, p2)[i].0 == p2 + header_attributes(entries, p1)[i].0.skip(
                    p1.len() as int,
                )
            },
    decreases entries.len(),
{
    if entries.len() > 0 {
        let init = entries.drop_last();
        lemma_header_attributes_prefix(init, p1, p2);
        let r1 = header_attributes(init, p1);
        let r2 = header_attributes(init, p2);
        match header_value_text(entries.last().1) {
            Some(text) => {
                let name = entries.last().0;
                assert((p1 + name).skip(p1.len() as int) =~= name);
                let a1 = r1.push((p1 + name, text));
                let a2 = r2.push((p2 + name, text));
                assert forall|i: int| 0 <= i < a1.len() implies {
                    &&& (#[trigger] a2[i]).1 == a1[i].1
                    &&& a2[i].0 == p2 + a1[i].0.skip(p1.len() as int)
                } by {
                    if i < r1.len() {
                        assert(a1[i] == r1[i]);
                        assert(a2[i] == r2[i]);
                    }
                }
            },
            None => {},
        }
    }
}

/// The attributes recorded from response headers are those recorded from the
/// same headers as request headers, with the response prefix in place of the
/// request prefix: as many, with the same values, and the same header names.
pub proof fn lemma_response_attributes_mirror_request(entries: Seq<Entry>)
    ensures
        header_attributes(entries, response_header_prefix()).len() == header_attributes(
            entries,
            request_header_prefix(),
        ).len(),
        forall|i: int|
            0 <= i < header_attributes(entries, request_header_prefix()).len() ==> {
                &&& (#[trigger] header_attributes(entries, response_header_prefix())[i]).1
                    == header_attributes(entries, request_header_prefix())[i].1
                &&& header_attributes(entries, response_header_prefix())[i].0 == response_header_prefix()
                    + header_attributes(entries, request_header_prefix())[i].0.skip(
                    request_header_prefix().len() as int,
                )
            },
{
    lemma_header_attributes_prefix(entries, request_header_prefix(), response_header_prefix());
}

/// Builds the span attributes of the printable headers of a map: the name is
/// the prefix followed by the header's name, the value the header's text.
pub fn header_attribute_list(map: &HeaderMap<HeaderValue>, prefix: &str) -> (r: Vec<(String, String)>)
    ensures
        r.deep_view() == header_attributes(header_entries(*map), prefix@),
{
    let entries = header_map_entries(map);
    let ghost model = header_entries(*map);
    let n = entries.len();
    let mut out: Vec<(String, String)> = Vec::new();
    let mut i: usize = 0;
    while i < n
        invariant
            n == entries@.len(),
            entries.deep_view() == model,
            0 <= i <= n,
            out.deep_view() == header_attributes(model.take(i as int), prefix@),
        decreases n - i,
    {
        let text = header_value_to_str(&entries[i].1);
        proof {
            assert(entries.deep_view()[i as int] == model[i as int]);
            assert(model[i as int].0 == entries@[i as int].0@);
            assert(model[i as int].1 == entries@[i as int].1@);
            assert(model.take(i + 1).drop_last() == model.take(i as int));
            assert(model.take(i + 1).last() == model[i as int]);
        }
        match text {
            Some(t) => {
                let mut name = to_owned_string(prefix);
                name.append(entries[i].0.as_str());
                out.push((name, t));
                proof {
                    assert(out.deep_view() == header_attributes(model.take(i as int), prefix@).push(
                        (prefix@ + model[i as int].0, t@),
                    ));
                }
            },
            None => {},
        }
        i = i + 1;
    }
    assert(model.take(n as int) == model);
    out
}

} // verus!
