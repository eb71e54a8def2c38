//! Reading the record of menu sources from an export of the keyboard
//! preferences.
//!
//! The export is a property list. Decoding it is the work of the `plist`
//! crate, reached through the trusted functions of this module. A decoded
//! value is opaque here: what it holds is named, one name for each of the
//! crate's accessors, and the contracts of the verified code say over those
//! names which record an export gives.

use vstd::prelude::*;
use vstd::std_specs::hash::group_hash_axioms;
use crate::input_source::{MenuEnabledSources, MenuView};
use crate::text::{opt_str_text, opt_text, text_eq, text_set};

verus! {

/// Trusted: the type `plist::Value`, a decoded property list. Opaque here.
#[verifier::external_type_specification]
#[verifier::external_body]
pub struct ExPlistValue(plist::Value);

/// Trusted: the type `plist::Dictionary`. Opaque here.
#[verifier::external_type_specification]
#[verifier::external_body]
pub struct ExPlistDictionary(plist::Dictionary);

/// What `plist::Value::from_reader` makes of the bytes of a property list:
/// the decoded value, or none where the bytes are no property list.
pub uninterp spec fn decoded_plist(bytes: Seq<u8>) -> Option<plist::Value>;

/// What `plist::Value::as_dictionary` returns for a value: its dictionary,
/// if the value is one.
pub uninterp spec fn value_dictionary(value: plist::Value) -> Option<plist::Dictionary>;

/// What `plist::Value::as_array` returns for a value: its items in order, if
/// the value is an array.
pub uninterp spec fn value_items(value: plist::Value) -> Option<Seq<plist::Value>>;

/// What `plist::Value::as_string` returns for a value: its text, if the
/// value is a string.
pub uninterp spec fn value_text(value: plist::Value) -> Option<Seq<char>>;

/// What `plist::Value::as_signed_integer` returns for a value: its number,
/// if the value is an integer that fits a signed 64-bit number.
pub uninterp spec fn value_integer(value: plist::Value) -> Option<i64>;

/// What a dictionary holds: the value under each of its keys.
pub uninterp spec fn dictionary_values(dictionary: plist::Dictionary) -> Map<Seq<char>, plist::Value>;

/// Trusted: `plist::Value::from_reader` on an in-memory reader. Decodes a
/// property list of any encoding; a decoding error gives none. The result
/// is named by `decoded_plist`; nothing else is claimed of it.
#[verifier::external_body]
fn decode_plist(bytes: &[u8]) -> (value: Option<plist::Value>)
    ensures
        value == decoded_plist(bytes@),
{
    plist::Value::from_reader(std::io::Cursor::new(bytes)).ok()
}

/// Trusted: `plist::Value::as_dictionary`. The result is named by
/// `value_dictionary`; nothing else is claimed of it.
#[verifier::external_body]
fn value_as_dictionary(value: &plist::Value) -> (dictionary: Option<&plist::Dictionary>)
    ensures
        match dictionary {
            Some(d) => value_dictionary(*value) == Some(*d),
            None => value_dictionary(*value) is None,
        },
{
    value.as_dictionary()
}

/// Trusted: `plist::Value::as_array`. The result is named by `value_items`;
/// nothing else is claimed of it.
#[verifier::external_body]
fn value_as_array(value: &plist::Value) -> (items: Option<&Vec<plist::Value>>)
    ensures
        match items {
            Some(list) => value_items(*value) == Some(list@),
            None => value_items(*value) is None,
        },
{
    value.as_array()
}

/// Trusted: `plist::Value::as_string`. The result is named by `value_text`;
/// nothing else is claimed of it.
#[verifier::external_body]
fn value_as_string(value: &plist::Value) -> (text: Option<&str>)
    ensures
        opt_str_text(text) == value_text(*value),
{
    value.as_string()
}

/// Trusted: `plist::Value::as_signed_integer`. The result is named by
/// `value_integer`; nothing else is claimed of it.
#[verifier::external_body]
fn value_as_signed_integer(value: &plist::Value) -> (number: Option<i64>)
    ensures
        number == value_integer(*value),
{
    value.as_signed_integer()
}

/// Trusted: `plist::Dictionary::get`. It returns the value under the key,
/// if the dictionary has the key; what the dictionary holds is named by
/// `dictionary_values`.
#[verifier::external_body]
fn dictionary_get<'a>(dictionary: &'a plist::Dictionary, key: &str) -> (found: Option<
    &'a plist::Value,
>)
    ensures
        match found {
            Some(value) => dictionary_values(*dictionary).contains_key(key@) && dictionary_values(
                *dictionary,
            )[key@] == *value,
            None => !dictionary_values(*dictionary).contains_key(key@),
        },
{
    dictionary.get(key)
}

/// One entry of the list of enabled input sources in the preferences, with
/// the properties that the record is built from.
#[derive(Debug)]
pub struct MenuEntry {
    /// Property "InputSourceKind".
    pub kind: String,
    /// Property "Input Mode".
    pub input_mode: Option<String>,
    /// Property "Bundle ID".
    pub bundle_id: Option<String>,
    /// Property "KeyboardLayout ID".
    pub keyboard_layout_id: Option<i64>,
    /// Property "KeyboardLayout Name".
    pub keyboard_layout_name: Option<String>,
}

/// The mathematical value of a [`MenuEntry`].
pub struct MenuEntryView {
    pub kind: Seq<char>,
    pub input_mode: Option<Seq<char>>,
    pub bundle_id: Option<Seq<char>>,
    pub keyboard_layout_id: Option<i64>,
    pub keyboard_layout_name: Option<Seq<char>>,
}

impl View for MenuEntry {
    type V = MenuEntryView;

    open spec fn view(&self) -> MenuEntryView {
        MenuEntryView {
            kind: self.kind@,
            input_mode: opt_text(self.input_mode),
            bundle_id: opt_text(self.bundle_id),
            keyboard_layout_id: self.keyboard_layout_id,
            keyboard_layout_name: opt_text(self.keyboard_layout_name),
        }
    }
}

/// The values of a list of entries, in order.
pub open spec fn entry_views(list: Seq<MenuEntry>) -> Seq<MenuEntryView> {
    list.map_values(|e: MenuEntry| e@)
}

/// A set with one more member, if there is one to add.
pub open spec fn with_member<A>(s: Set<A>, member: Option<A>) -> Set<A> {
    match member {
        Some(m) => s.insert(m),
        None => s,
    }
}

/// The record without any entry.
pub open spec fn empty_menu() -> MenuView {
    MenuView {
        input_mode_ids: Set::empty(),
        input_mode_parent_bundles: Map::empty(),
        keyboard_layout_ids: Set::empty(),
        keyboard_layout_names: Set::empty(),
        keyboard_input_method_bundle_ids: Set::empty(),
    }
}

/// The record after one more entry of the preferences was read. An input
/// mode adds its mode id and, if it names one, the bundle it belongs to; a
/// keyboard layout adds its numeric id and its name, as far as it has them;
/// an input method adds its bundle. An entry of another kind, or an input
/// mode without a mode id, adds nothing.
pub open spec fn with_entry(menu: MenuView, entry: MenuEntryView) -> MenuView {
    if entry.kind == "Input Mode"@ {
        match entry.input_mode {
            Some(id) => MenuView {
                input_mode_ids: menu.input_mode_ids.insert(id),
                input_mode_parent_bundles: match entry.bundle_id {
                    Some(bundle) => menu.input_mode_parent_bundles.insert(id, bundle),
                    None => menu.input_mode_parent_bundles,
                },
                ..menu
            },
            None => menu,
        }
    } else if entry.kind == "Keyboard Layout"@ {
        MenuView {
            keyboard_layout_ids: with_member(menu.keyboard_layout_ids, entry.keyboard_layout_id),
            keyboard_layout_names: with_member(
                menu.keyboard_layout_names,
                entry.keyboard_layout_name,
            ),
            ..menu
        }
    } else if entry.kind == "Keyboard Input Method"@ {
        MenuView {
            keyboard_input_method_bundle_ids: with_member(
                menu.keyboard_input_method_bundle_ids,
                entry.bundle_id,
            ),
            ..menu
        }
    } else {
        menu
    }
}

/// The record that a list of entries builds, read in order.
pub open spec fn menu_of_entries(entries: Seq<MenuEntryView>) -> MenuView
    decreases entries.len(),
{
    if entries.len() == 0 {
        empty_menu()
    } else {
        with_entry(menu_of_entries(entries.drop_last()), entries.last())
    }
}

/// Whether every input mode with a recorded bundle is an allowed input mode.
pub open spec fn parents_are_modes(menu: MenuView) -> bool {
    forall|id: Seq<char>| #[trigger]
        menu.input_mode_parent_bundles.contains_key(id) ==> menu.input_mode_ids.contains(id)
}

/// A record built from entries records a bundle only for input modes that it
/// allows.
pub proof fn menu_of_entries_records_bundles_of_its_modes(entries: Seq<MenuEntryView>)
    ensures
        parents_are_modes(menu_of_entries(entries)),
    decreases entries.len(),
{
    if entries.len() > 0 {
        menu_of_entries_records_bundles_of_its_modes(entries.drop_last());
    }
}

/// Adds a text to a list that stands for a set.
fn insert_text(list: &mut Vec<String>, text: &str)
    ensures
        text_set(final(list)@) == text_set(old(list)@).insert(text@),
{
    let ghost before = list@;
    list.push(text.to_owned());
    proof {
        assert forall|t: Seq<char>| text_set(list@).contains(t) <==> text_set(before).insert(
            text@,
        ).contains(t) by {
            if text_set(list@).contains(t) {
                let j = choose|j: int| 0 <= j < list@.len() && (#[trigger] list@[j])@ == t;
                if j < before.len() {
                    assert(before[j]@ == t);
                }
            }
            if text_set(before).contains(t) {
                let j = choose|j: int| 0 <= j < before.len() && (#[trigger] before[j])@ == t;
                assert(list@[j]@ == t);
            }
            if t == text@ {
                assert(list@[before.len() as int]@ == t);
            }
        }
        assert(text_set(list@) =~= text_set(before).insert(text@));
    }
}

impl MenuEnabledSources {
    /// Reads one more entry of the preferences into the record.
    pub fn record_entry(&mut self, entry: &MenuEntry)
        ensures
            final(self)@ == with_entry(old(self)@, entry@),
    {
        broadcast use group_hash_axioms;

        if text_eq(entry.kind.as_str(), "Input Mode") {
            match &entry.input_mode {
                Some(id) => {
                    insert_text(&mut self.input_mode_ids, id.as_str());
                    match &entry.bundle_id {
                        Some(bundle_id) => {
                            let ghost before = self.input_mode_parent_bundles@;
                            self.input_mode_parent_bundles.push((id.clone(), bundle_id.clone()));
                            proof {
                                assert(self.input_mode_parent_bundles@.drop_last() =~= before);
                            }
                        },
                        None => {},
                    }
                },
                None => {},
            }
        } else if text_eq(entry.kind.as_str(), "Keyboard Layout") {
            match entry.keyboard_layout_id {
                Some(id) => {
                    self.keyboard_layout_ids.insert(id);
                },
                None => {},
            }
            match &entry.keyboard_layout_name {
                Some(name) => {
                    insert_text(&mut self.keyboard_layout_names, name.as_str());
                },
                None => {},
            }
        } else if text_eq(entry.kind.as_str(), "Keyboard Input Method") {
            match &entry.bundle_id {
                Some(bundle_id) => {
                    insert_text(&mut self.keyboard_input_method_bundle_ids, bundle_id.as_str());
                },
                None => {},
            }
        }
    }
}

/// The record that a list of entries builds; none when no entry left a
/// trace in it.
pub fn menu_from_entries(entries: &[MenuEntry]) -> (menu: Option<MenuEnabledSources>)
    ensures
        menu is Some <==> !menu_of_entries(entry_views(entries@)).is_empty(),
        menu is Some ==> menu->0@ == menu_of_entries(entry_views(entries@)),
        menu is Some ==> parents_are_modes(menu->0@),
{
    let ghost views = entry_views(entries@);
    let mut sources = MenuEnabledSources::new();
    let mut i: usize = 0;
    proof {
        lemma_new_menu_is_empty_menu(sources);
        assert(views.take(0) =~= Seq::empty());
    }
    while i < entries.len()
        invariant
            i <= entries.len(),
            views == entry_views(entries@),
            sources@ == menu_of_entries(views.take(i as int)),
        decreases entries.len() - i,
    {
        proof {
            assert(views.take(i + 1).drop_last() =~= views.take(i as int));
            assert(views.take(i + 1).last() == entries[i as int]@);
        }
        sources.record_entry(&entries[i]);
        i += 1;
    }
    proof {
        assert(views.take(entries.len() as int) =~= views);
        menu_of_entries_records_bundles_of_its_modes(views);
    }
    if sources.is_empty() {
        None
    } else {
        Some(sources)
    }
}

/// A record whose lists are all empty is the record without any entry.
proof fn lemma_new_menu_is_empty_menu(menu: MenuEnabledSources)
    requires
        menu.input_mode_ids@.len() == 0,
        menu.input_mode_parent_bundles@.len() == 0,
        menu.keyboard_layout_ids@ == Set::<i64>::empty(),
        menu.keyboard_layout_names@.len() == 0,
        menu.keyboard_input_method_bundle_ids@.len() == 0,
    ensures
        menu@ == empty_menu(),
{
    menu.lemma_empty_lists();
    assert(menu@.input_mode_ids =~= Set::empty());
    assert(menu@.keyboard_layout_ids =~= Set::empty());
    assert(menu@.keyboard_layout_names =~= Set::empty());
    assert(menu@.keyboard_input_method_bundle_ids =~= Set::empty());
    assert(menu@.input_mode_parent_bundles =~= Map::empty());
}

/// The text under a key of a dictionary: none where the dictionary lacks
/// the key or holds something else than a string under it.
pub open spec fn text_under(dictionary: plist::Dictionary, key: Seq<char>) -> Option<Seq<char>> {
    if dictionary_values(dictionary).contains_key(key) {
        value_text(dictionary_values(dictionary)[key])
    } else {
        None
    }
}

/// The number under a key of a dictionary: none where the dictionary lacks
/// the key or holds something else than a signed integer under it.
pub open spec fn integer_under(dictionary: plist::Dictionary, key: Seq<char>) -> Option<i64> {
    if dictionary_values(dictionary).contains_key(key) {
        value_integer(dictionary_values(dictionary)[key])
    } else {
        None
    }
}

/// The entry that an item of the list of enabled input sources gives: none
/// unless the item is a dictionary with a text under "InputSourceKind".
pub open spec fn entry_of(item: plist::Value) -> Option<MenuEntryView> {
    match value_dictionary(item) {
        None => None,
        Some(dictionary) => match text_under(dictionary, "InputSourceKind"@) {
            None => None,
            Some(kind) => Some(
                MenuEntryView {
                    kind,
                    input_mode: text_under(dictionary, "Input Mode"@),
                    bundle_id: text_under(dictionary, "Bundle ID"@),
                    keyboard_layout_id: integer_under(dictionary, "KeyboardLayout ID"@),
                    keyboard_layout_name: text_under(dictionary, "KeyboardLayout Name"@),
                },
            ),
        },
    }
}

/// The entries that a list of items gives, in the order of the items.
pub open spec fn entries_of_items(items: Seq<plist::Value>) -> Seq<MenuEntryView>
    decreases items.len(),
{
    if items.len() == 0 {
        Seq::empty()
    } else {
        let earlier = entries_of_items(items.drop_last());
        match entry_of(items.last()) {
            Some(entry) => earlier.push(entry),
            None => earlier,
        }
    }
}

/// The entries of a decoded export: those of the array under
/// "AppleEnabledInputSources" of its root dictionary. None where the root
/// is no dictionary, lacks the key, or holds no array under it.
pub open spec fn enabled_entries_of(export: plist::Value) -> Option<Seq<MenuEntryView>> {
    match value_dictionary(export) {
        None => None,
        Some(root) => {
            if dictionary_values(root).contains_key("AppleEnabledInputSources"@) {
                match value_items(dictionary_values(root)["AppleEnabledInputSources"@]) {
                    Some(items) => Some(entries_of_items(items)),
                    None => None,
                }
            } else {
                None
            }
        },
    }
}

/// The record that the bytes of an export give: that of its entries, unless
/// the bytes cannot be decoded, the export has no list of enabled input
/// sources, or the record would be empty.
pub open spec fn menu_of_export(export: Seq<u8>) -> Option<MenuView> {
    match decoded_plist(export) {
        None => None,
        Some(value) => match enabled_entries_of(value) {
            None => None,
            Some(entries) => {
                if menu_of_entries(entries).is_empty() {
                    None
                } else {
                    Some(menu_of_entries(entries))
                }
            },
        },
    }
}

/// The text under a key of a dictionary, if there is one.
fn dictionary_text(dictionary: &plist::Dictionary, key: &str) -> (text: Option<String>)
    ensures
        opt_text(text) == text_under(*dictionary, key@),
{
    match dictionary_get(dictionary, key) {
        Some(value) => match value_as_string(value) {
            Some(text) => Some(text.to_owned()),
            None => None,
        },
        None => None,
    }
}

/// The number under a key of a dictionary, if there is one.
fn dictionary_integer(dictionary: &plist::Dictionary, key: &str) -> (number: Option<i64>)
    ensures
        number == integer_under(*dictionary, key@),
{
    match dictionary_get(dictionary, key) {
        Some(value) => value_as_signed_integer(value),
        None => None,
    }
}

/// The entries of the list of enabled input sources in a decoded export:
/// every item of the list that is a dictionary with a kind. None when the
/// export has no such list.
fn enabled_entries(export: &plist::Value) -> (entries: Option<Vec<MenuEntry>>)
    ensures
        match entries {
            Some(list) => enabled_entries_of(*export) == Some(entry_views(list@)),
            None => enabled_entries_of(*export) is None,
        },
{
    let root = match value_as_dictionary(export) {
        Some(root) => root,
        None => {
            return None;
        },
    };
    let enabled = match dictionary_get(root, "AppleEnabledInputSources") {
        Some(value) => match value_as_array(value) {
            Some(items) => items,
            None => {
                return None;
            },
        },
        None => {
            return None;
        },
    };
    let mut entries: Vec<MenuEntry> = Vec::new();
    let mut i: usize = 0;
    proof {
        assert(enabled@.take(0) =~= Seq::empty());
        assert(entry_views(entries@) =~= Seq::empty());
    }
    while i < enabled.len()
        invariant
            i <= enabled.len(),
            entry_views(entries@) == entries_of_items(enabled@.take(i as int)),
        decreases enabled.len() - i,
    {
        proof {
            assert(enabled@.take(i + 1).drop_last() =~= enabled@.take(i as int));
            assert(enabled@.take(i + 1).last() == enabled@[i as int]);
        }
        match value_as_dictionary(&enabled[i]) {
            Some(dict) => {
                match dictionary_text(dict, "InputSourceKind") {
                    Some(kind) => {
                        let ghost before = entry_views(entries@);
                        let entry = MenuEntry {
                            kind,
                            input_mode: dictionary_text(dict, "Input Mode"),
                            bundle_id: dictionary_text(dict, "Bundle ID"),
                            keyboard_layout_id: dictionary_integer(dict, "KeyboardLayout ID"),
                            keyboard_layout_name: dictionary_text(dict, "KeyboardLayout Name"),
                        };
                        proof {
                            assert(entry_of(enabled@[i as int]) == Some(entry@));
                        }
                        entries.push(entry);
                        proof {
                            assert(entry_views(entries@) =~= before.push(entry@));
                        }
                    },
                    None => {},
                }
            },
            None => {},
        }
        i += 1;
    }
    proof {
        assert(enabled@.take(enabled.len() as int) =~= enabled@);
    }
    Some(entries)
}

/// Reads the record of menu sources from an export of the keyboard
/// preferences. An export that cannot be decoded, that has no list of
/// enabled input sources, or whose list leaves no trace gives none: the
/// record that comes back is never empty, and it records a bundle only for
/// input modes that it allows.
pub fn load_menu_enabled_sources(export: &[u8]) -> (menu: Option<MenuEnabledSources>)
    ensures
        match menu {
            Some(record) => menu_of_export(export@) == Some(record@),
            None => menu_of_export(export@) is None,
        },
        menu is Some ==> !menu->0@.is_empty(),
        menu is Some ==> parents_are_modes(menu->0@),
{
    match decode_plist(export) {
        None => None,
        Some(value) => match enabled_entries(&value) {
            None => None,
            Some(entries) => menu_from_entries(entries.as_slice()),
        },
    }
}

} // verus!
