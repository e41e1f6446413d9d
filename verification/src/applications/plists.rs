//! Reading the property lists an application carries: the names and version
//! in its `Info.plist`, and the application groups its signed entitlements
//! declare. The plist crate decodes the files; what is read from them is
//! decided here.
use vstd::prelude::*;
use crate::applications::inventory::BundleMetadata;
use crate::text::{chars_of, occurs_at, occurs_at_exec, same_text, string_of};

verus! {

/// A value of a top-level property list entry, as far as it is read: a
/// string, an array (with each element's string, if it is one), or
/// anything else.
#[derive(Debug)]
pub enum PlistEntry {
    Text(String),
    List(Vec<Option<String>>),
    Other,
}

/// A top-level entry as plain values.
pub ghost enum EntryView {
    Text(Seq<char>),
    List(Seq<Option<Seq<char>>>),
    Other,
}

pub open spec fn opt_text(o: Option<String>) -> Option<Seq<char>> {
    match o {
        Some(s) => Some(s@),
        None => None,
    }
}

pub open spec fn entry_view(e: PlistEntry) -> EntryView {
    match e {
        PlistEntry::Text(t) => EntryView::Text(t@),
        PlistEntry::List(items) => EntryView::List(items@.map_values(|o: Option<String>| opt_text(o))),
        PlistEntry::Other => EntryView::Other,
    }
}

pub open spec fn entries_view(v: Seq<(String, PlistEntry)>) -> Seq<(Seq<char>, EntryView)> {
    v.map_values(|e: (String, PlistEntry)| (e.0@, entry_view(e.1)))
}

pub open spec fn opt_entries_view(o: Option<Vec<(String, PlistEntry)>>) -> Option<Seq<(Seq<char>, EntryView)>> {
    match o {
        Some(v) => Some(entries_view(v@)),
        None => None,
    }
}

/// The top-level dictionary that the plist crate's `Value::from_reader`
/// decodes from a property list file's bytes (of any of its encodings), in
/// the dictionary's order; none when the bytes do not decode to a dictionary.
pub uninterp spec fn plist_entries(bytes: Seq<u8>) -> Option<Seq<(Seq<char>, EntryView)>>;

/// The top-level dictionary that the plist crate's `Value::from_reader_xml`
/// decodes from the UTF-8 bytes of `text`, in the dictionary's order; none
/// when they do not decode to a dictionary.
pub uninterp spec fn xml_plist_entries(text: Seq<char>) -> Option<Seq<(Seq<char>, EntryView)>>;

/// Calls `plist::Value::from_reader` on the bytes and, when the value is a
/// dictionary, lists its entries. Claimed: the result is that function of
/// the bytes alone, named `plist_entries`.
#[verifier::external_body]
fn decode_plist(bytes: &[u8]) -> (r: Option<Vec<(String, PlistEntry)>>)
    ensures
        opt_entries_view(r) == plist_entries(bytes@),
{
    let dictionary = plist::Value::from_reader(std::io::Cursor::new(bytes)).ok()?.into_dictionary()?;
    Some(dictionary.into_iter().map(|(key, value)| (key, match value {
        plist::Value::String(text) => PlistEntry::Text(text),
        plist::Value::Array(items) => PlistEntry::List(items.into_iter().map(plist::Value::into_string).collect()),
        _ => PlistEntry::Other,
    })).collect())
}

/// Calls `plist::Value::from_reader_xml` on the UTF-8 bytes of `text` and,
/// when the value is a dictionary, lists its entries. Claimed: the result is
/// that function of the text alone, named `xml_plist_entries`.
#[verifier::external_body]
fn decode_xml_plist(text: &str) -> (r: Option<Vec<(String, PlistEntry)>>)
    ensures
        opt_entries_view(r) == xml_plist_entries(text@),
{
    let dictionary = plist::Value::from_reader_xml(text.as_bytes()).ok()?.into_dictionary()?;
    Some(dictionary.into_iter().map(|(key, value)| (key, match value {
        plist::Value::String(text) => PlistEntry::Text(text),
        plist::Value::Array(items) => PlistEntry::List(items.into_iter().map(plist::Value::into_string).collect()),
        _ => PlistEntry::Other,
    })).collect())
}

/// The value of the first entry under `key`.
pub open spec fn entry_for(entries: Seq<(Seq<char>, EntryView)>, key: Seq<char>) -> Option<EntryView>
    decreases entries.len(),
{
    if entries.len() == 0 {
        None
    } else if entries[0].0 == key {
        Some(entries[0].1)
    } else {
        entry_for(entries.drop_first(), key)
    }
}

/// The string under `key`, if the entry there is a string.
pub open spec fn text_for(entries: Seq<(Seq<char>, EntryView)>, key: Seq<char>) -> Option<Seq<char>> {
    match entry_for(entries, key) {
        Some(EntryView::Text(t)) => Some(t),
        _ => None,
    }
}

fn find_entry<'a>(entries: &'a Vec<(String, PlistEntry)>, key: &str) -> (r: Option<&'a PlistEntry>)
    ensures
        match entry_for(entries_view(entries@), key@) {
            None => r is None,
            Some(v) => r matches Some(e) && entry_view(*e) == v,
        },
{
    let ghost all = entries_view(entries@);
    let mut i: usize = 0;
    assert(all.skip(0) =~= all);
    while i < entries.len()
        invariant
            all == entries_view(entries@),
            0 <= i <= entries@.len(),
            entry_for(all, key@) == entry_for(all.skip(i as int), key@),
        decreases entries@.len() - i,
    {
        assert(all.skip(i as int)[0] == (entries@[i as int].0@, entry_view(entries@[i as int].1)));
        if same_text(entries[i].0.as_str(), key) {
            return Some(&entries[i].1);
        }
        assert(all.skip(i as int).drop_first() =~= all.skip(i + 1));
        i = i + 1;
    }
    None
}

fn text_entry(entries: &Vec<(String, PlistEntry)>, key: &str) -> (r: Option<String>)
    ensures
        opt_text(r) == text_for(entries_view(entries@), key@),
{
    match find_entry(entries, key) {
        Some(PlistEntry::Text(t)) => Some(t.clone()),
        _ => None,
    }
}

/// The names and version an `Info.plist` declares: the display name, else
/// the bundle name; the identifier; the short version string.
pub open spec fn metadata_of(entries: Option<Seq<(Seq<char>, EntryView)>>, m: BundleMetadata) -> bool {
    match entries {
        None => m.name is None && m.bundle_id is None && m.version is None,
        Some(e) => {
            &&& opt_text(m.name) == (match text_for(e, "CFBundleDisplayName"@) {
                Some(n) => Some(n),
                None => text_for(e, "CFBundleName"@),
            })
            &&& opt_text(m.bundle_id) == text_for(e, "CFBundleIdentifier"@)
            &&& opt_text(m.version) == text_for(e, "CFBundleShortVersionString"@)
        },
    }
}

/// The metadata in the bytes of a bundle's `Info.plist`.
pub fn bundle_metadata(info_plist: &[u8]) -> (m: BundleMetadata)
    ensures
        metadata_of(plist_entries(info_plist@), m),
{
    let entries = match decode_plist(info_plist) {
        None => return BundleMetadata { name: None, bundle_id: None, version: None },
        Some(e) => e,
    };
    let name = match text_entry(&entries, "CFBundleDisplayName") {
        Some(n) => Some(n),
        None => text_entry(&entries, "CFBundleName"),
    };
    BundleMetadata {
        name,
        bundle_id: text_entry(&entries, "CFBundleIdentifier"),
        version: text_entry(&entries, "CFBundleShortVersionString"),
    }
}

/// The first position at or after `from` where `needle` occurs in `s`.
pub open spec fn first_occurrence(s: Seq<char>, needle: Seq<char>, from: int) -> Option<int>
    decreases s.len() - from,
{
    if from < 0 || from > s.len() {
        None
    } else if occurs_at(s, needle, from) {
        Some(from)
    } else if from < s.len() {
        first_occurrence(s, needle, from + 1)
    } else {
        None
    }
}

/// The property list embedded in a text: from the first `<plist` to the
/// first `</plist>` after it, inclusive.
pub open spec fn plist_section(text: Seq<char>) -> Option<Seq<char>> {
    match first_occurrence(text, "<plist"@, 0) {
        None => None,
        Some(start) => match first_occurrence(text, "</plist>"@, start) {
            None => None,
            Some(close) => Some(text.subrange(start, close + 8)),
        },
    }
}

proof fn lemma_first_occurrence(s: Seq<char>, needle: Seq<char>, from: int)
    requires
        0 <= from <= s.len(),
    ensures
        first_occurrence(s, needle, from) matches Some(k) ==> from <= k <= s.len() && occurs_at(s, needle, k),
    decreases s.len() - from,
{
    if !occurs_at(s, needle, from) && from < s.len() {
        lemma_first_occurrence(s, needle, from + 1);
    }
}

fn find_from(s: &Vec<char>, needle: &Vec<char>, from: usize) -> (r: Option<usize>)
    requires
        from <= s@.len(),
    ensures
        match first_occurrence(s@, needle@, from as int) {
            None => r is None,
            Some(k) => r == Some(k as usize),
        },
{
    let mut i: usize = from;
    loop
        invariant
            from <= i <= s@.len(),
            first_occurrence(s@, needle@, from as int) == first_occurrence(s@, needle@, i as int),
        decreases s@.len() - i,
    {
        if occurs_at_exec(s.as_slice(), needle.as_slice(), i) {
            return Some(i);
        }
        if i == s.len() {
            return None;
        }
        i = i + 1;
    }
}

/// The property list section of a text, if it has one.
pub fn plist_section_exec(text: &str) -> (r: Option<String>)
    ensures
        opt_text(r) == plist_section(text@),
{
    let t = chars_of(text);
    let open = chars_of("<plist");
    let end = chars_of("</plist>");
    let start = match find_from(&t, &open, 0) {
        None => return None,
        Some(k) => k,
    };
    proof {
        lemma_first_occurrence(t@, open@, 0);
        assert(t@.len() == t.len());
    }
    let close = match find_from(&t, &end, start) {
        None => return None,
        Some(k) => k,
    };
    proof {
        reveal_strlit("</plist>");
        lemma_first_occurrence(t@, end@, start as int);
        assert(t@.len() == t.len());
        assert(end@.len() == 8);
    }
    Some(string_of(crate::paths::slice_range(t.as_slice(), start, close + 8).as_slice()))
}

/// The strings among a list's elements, in order.
pub open spec fn present_strings(items: Seq<Option<Seq<char>>>) -> Seq<Seq<char>>
    decreases items.len(),
{
    if items.len() == 0 {
        Seq::empty()
    } else {
        match items.last() {
            Some(t) => present_strings(items.drop_last()).push(t),
            None => present_strings(items.drop_last()),
        }
    }
}

/// The application groups an entitlements text declares, if it holds a
/// property list with a list of them.
pub open spec fn declared_groups(text: Seq<char>) -> Option<Seq<Seq<char>>> {
    match plist_section(text) {
        None => None,
        Some(section) => match xml_plist_entries(section) {
            None => None,
            Some(entries) => match entry_for(entries, "com.apple.security.application-groups"@) {
                Some(EntryView::List(items)) => Some(present_strings(items)),
                _ => None,
            },
        },
    }
}

/// The groups declared in the first of `outputs` that declares any.
pub open spec fn application_groups_spec(outputs: Seq<Seq<char>>) -> Seq<Seq<char>>
    decreases outputs.len(),
{
    if outputs.len() == 0 {
        Seq::empty()
    } else {
        match declared_groups(outputs[0]) {
            Some(g) => g,
            None => application_groups_spec(outputs.drop_first()),
        }
    }
}

pub open spec fn texts(v: Seq<String>) -> Seq<Seq<char>> {
    v.map_values(|s: String| s@)
}

fn strings_in(items: &Vec<Option<String>>) -> (r: Vec<String>)
    ensures
        texts(r@) == present_strings(items@.map_values(|o: Option<String>| opt_text(o))),
{
    let ghost all = items@.map_values(|o: Option<String>| opt_text(o));
    let mut r: Vec<String> = Vec::new();
    let mut i: usize = 0;
    assert(all.take(0) =~= Seq::<Option<Seq<char>>>::empty());
    assert(texts(r@) =~= Seq::<Seq<char>>::empty());
    while i < items.len()
        invariant
            all == items@.map_values(|o: Option<String>| opt_text(o)),
            0 <= i <= items@.len(),
            texts(r@) == present_strings(all.take(i as int)),
        decreases items@.len() - i,
    {
        assert(all.take(i + 1).drop_last() =~= all.take(i as int));
        assert(all.take(i + 1).last() == opt_text(items@[i as int]));
        match &items[i] {
            Some(t) => {
                let ghost before = r@;
                r.push(t.clone());
                assert(texts(r@) =~= texts(before).push(t@));
            },
            None => {},
        }
        i = i + 1;
    }
    assert(all.take(items@.len() as int) =~= all);
    r
}

/// The application groups declared by the entitlements that `codesign`
/// printed (its output, then its error output).
pub fn application_groups(outputs: &Vec<String>) -> (r: Vec<String>)
    ensures
        texts(r@) == application_groups_spec(texts(outputs@)),
{
    let ghost all = texts(outputs@);
    let mut i: usize = 0;
    assert(all.skip(0) =~= all);
    while i < outputs.len()
        invariant
            all == texts(outputs@),
            0 <= i <= outputs@.len(),
            application_groups_spec(all) == application_groups_spec(all.skip(i as int)),
        decreases outputs@.len() - i,
    {
        assert(all.skip(i as int)[0] == outputs@[i as int]@);
        assert(all.skip(i as int).drop_first() =~= all.skip(i + 1));
        if let Some(section) = plist_section_exec(outputs[i].as_str()) {
            if let Some(entries) = decode_xml_plist(section.as_str()) {
                if let Some(PlistEntry::List(items)) = find_entry(&entries, "com.apple.security.application-groups") {
                    return strings_in(items);
                }
            }
        }
        i = i + 1;
    }
    assert(all.skip(i as int) =~= Seq::<Seq<char>>::empty());
    Vec::new()
}

} // verus!
