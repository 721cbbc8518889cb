use vstd::prelude::*;
use vstd::string::*;

use crate::clock::{is_timestamp_text, now_rfc3339};
use crate::info::{ClientInfo, IdentityView};
use crate::text::{copy_texts, texts};

verus! {

/// The mathematical value of a [`RegisteredClientInfo`].
pub struct RecordView {
    pub base_info: IdentityView,
    pub name: Option<Seq<char>>,
    pub tags: Seq<Seq<char>>,
    pub first_seen: Seq<char>,
    pub last_seen: Seq<char>,
}

/// A device's entry in the persistent device directory: its identity, an
/// optional display name, its tags, and when it was first and last seen
/// (RFC 3339 text).
#[derive(Debug)]
pub struct RegisteredClientInfo {
    pub base_info: ClientInfo,
    pub name: Option<String>,
    pub tags: Vec<String>,
    pub first_seen: String,
    pub last_seen: String,
}

pub open spec fn opt_text(o: Option<String>) -> Option<Seq<char>> {
    match o {
        Some(t) => Some(t@),
        None => None,
    }
}

impl View for RegisteredClientInfo {
    type V = RecordView;

    open spec fn view(&self) -> RecordView {
        RecordView {
            base_info: self.base_info@,
            name: opt_text(self.name),
            tags: texts(self.tags@),
            first_seen: self.first_seen@,
            last_seen: self.last_seen@,
        }
    }
}

/// The views of a list of directory entries.
pub open spec fn records(v: Seq<RegisteredClientInfo>) -> Seq<RecordView> {
    v.map_values(|r: RegisteredClientInfo| r@)
}

/// `k` is the first entry of `s` for the device `imei`.
pub open spec fn is_first_entry(s: Seq<RecordView>, imei: Seq<char>, k: int) -> bool {
    &&& 0 <= k < s.len()
    &&& s[k].base_info.imei == imei
    &&& forall|j: int| 0 <= j < k ==> s[j].base_info.imei != imei
}

/// Some entry of `s` is for the device `imei`.
pub open spec fn has_entry(s: Seq<RecordView>, imei: Seq<char>) -> bool {
    exists|k: int| 0 <= k < s.len() && #[trigger] s[k].base_info.imei == imei
}

/// The display name that `name` sets: none for empty text.
pub open spec fn name_from(name: Seq<char>) -> Option<Seq<char>> {
    if name.len() == 0 {
        None
    } else {
        Some(name)
    }
}

fn copy_opt_text(o: &Option<String>) -> (r: Option<String>)
    ensures
        opt_text(r) == opt_text(*o),
{
    match o {
        Some(t) => Some(t.clone()),
        None => None,
    }
}

impl RegisteredClientInfo {
    /// A new entry for `info`, first and last seen now.
    pub fn create(info: ClientInfo) -> (r: RegisteredClientInfo)
        ensures
            r@.base_info == info@,
            r@.name is None,
            r@.tags.len() == 0,
            r@.first_seen == r@.last_seen,
            is_timestamp_text(r@.first_seen),
    {
        let now = now_rfc3339();
        let r = RegisteredClientInfo {
            base_info: info,
            name: None,
            tags: Vec::new(),
            first_seen: now.clone(),
            last_seen: now,
        };
        assert(r@.tags =~= Seq::<Seq<char>>::empty());
        r
    }

    /// Marks the device as seen now.
    pub fn update_last_seen(&mut self)
        ensures
            final(self)@ == (RecordView { last_seen: final(self)@.last_seen, ..old(self)@ }),
            is_timestamp_text(final(self)@.last_seen),
    {
        self.last_seen = now_rfc3339();
    }

    /// Sets the display name; empty text clears it.
    pub fn set_name(&mut self, name: String)
        ensures
            final(self)@ == (RecordView { name: name_from(name@), ..old(self)@ }),
    {
        self.name = if name.as_str().is_empty() {
            None
        } else {
            Some(name)
        };
    }

    /// Replaces the tags.
    pub fn set_tags(&mut self, tags: Vec<String>)
        ensures
            final(self)@ == (RecordView { tags: texts(tags@), ..old(self)@ }),
    {
        self.tags = tags;
    }

    /// A copy of this entry.
    pub fn duplicate(&self) -> (r: RegisteredClientInfo)
        ensures
            r@ == self@,
    {
        RegisteredClientInfo {
            base_info: self.base_info.snapshot(),
            name: copy_opt_text(&self.name),
            tags: copy_texts(&self.tags),
            first_seen: self.first_seen.clone(),
            last_seen: self.last_seen.clone(),
        }
    }
}

/// Two entries are the same device when their identifiers agree.
impl PartialEq for RegisteredClientInfo {
    fn eq(&self, other: &RegisteredClientInfo) -> (r: bool)
        ensures
            r == (self@.base_info.imei == other@.base_info.imei),
    {
        self.base_info.imei == other.base_info.imei
    }
}

impl vstd::std_specs::cmp::PartialEqSpecImpl for RegisteredClientInfo {
    open spec fn obeys_eq_spec() -> bool {
        true
    }

    open spec fn eq_spec(&self, other: &RegisteredClientInfo) -> bool {
        self@.base_info.imei == other@.base_info.imei
    }
}

/// The position of the first entry for `imei`, if any.
fn entry_position(entries: &Vec<RegisteredClientInfo>, imei: &String) -> (r: Option<usize>)
    ensures
        r matches Some(k) ==> is_first_entry(records(entries@), imei@, k as int),
        r is None ==> !has_entry(records(entries@), imei@),
{
    let ghost s = records(entries@);
    let mut i: usize = 0;
    while i < entries.len()
        invariant
            0 <= i <= entries@.len(),
            s == records(entries@),
            forall|j: int| 0 <= j < i ==> s[j].base_info.imei != imei@,
        decreases entries@.len() - i,
    {
        if entries[i].base_info.imei == *imei {
            return Some(i);
        }
        i = i + 1;
    }
    None
}

/// A copy of the first directory entry for the device `imei`, if any.
pub fn find_entry(entries: &Vec<RegisteredClientInfo>, imei: &str) -> (r: Option<
    RegisteredClientInfo,
>)
    ensures
        r is None <==> !has_entry(records(entries@), imei@),
        r matches Some(e) ==> exists|k: int|
            is_first_entry(records(entries@), imei@, k) && e@ == records(entries@)[k],
{
    let key = String::from_str(imei);
    match entry_position(entries, &key) {
        Some(k) => {
            let e = entries[k].duplicate();
            assert(is_first_entry(records(entries@), imei@, k as int));
            Some(e)
        },
        None => None,
    }
}

/// Saves `entry` into the directory: it replaces the first entry for the
/// same device, or is added at the end when there is none.
pub fn upsert_entry(entries: &mut Vec<RegisteredClientInfo>, entry: RegisteredClientInfo)
    ensures
        has_entry(records(old(entries)@), entry@.base_info.imei) ==> exists|k: int|
            is_first_entry(records(old(entries)@), entry@.base_info.imei, k) && records(
                final(entries)@,
            ) == records(old(entries)@).update(k, entry@),
        !has_entry(records(old(entries)@), entry@.base_info.imei) ==> records(final(entries)@)
            == records(old(entries)@).push(entry@),
{
    let ghost before = entries@;
    let ghost e = entry@;
    match entry_position(entries, &entry.base_info.imei) {
        Some(k) => {
            entries.set(k, entry);
            proof {
                assert(records(entries@) =~= records(before).update(k as int, e)) by {
                    assert forall|j: int| 0 <= j < entries@.len() implies records(entries@)[j]
                        == records(before).update(k as int, e)[j] by {
                        if j != k {
                            assert(entries@[j] == before[j]);
                        }
                    }
                }
            }
        },
        None => {
            entries.push(entry);
            proof {
                assert(records(entries@) =~= records(before).push(e)) by {
                    assert forall|j: int| 0 <= j < before.len() implies records(entries@)[j]
                        == records(before)[j] by {
                        assert(entries@[j] == before[j]);
                    }
                }
            }
        },
    }
}

} // verus!
