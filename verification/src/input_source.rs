//! The catalog of input sources that a user can actually select.
//!
//! The platform reports every installed source. The catalog keeps the ones
//! that are enabled, selectable keyboard sources and, where the keyboard
//! preferences record which sources the menu shows, only those.

use std::collections::HashSet;
use vstd::prelude::*;
use vstd::std_specs::hash::group_hash_axioms;
use vstd::string::StringExecFns;
use crate::error::AppError;
use crate::text::{
    decimal, int_text, lemma_text_set_empty, list_has, no_members, opt_as_str, opt_str_text, opt_text,
    text_eq, text_set,
};

verus! {

/// A selectable keyboard input source. Its identity is `id`.
#[derive(Debug)]
pub struct InputSource {
    pub id: String,
    pub name: String,
    pub category: String,
}

/// The mathematical value of an [`InputSource`].
pub struct InputSourceView {
    pub id: Seq<char>,
    pub name: Seq<char>,
    pub category: Seq<char>,
}

impl View for InputSource {
    type V = InputSourceView;

    open spec fn view(&self) -> InputSourceView {
        InputSourceView { id: self.id@, name: self.name@, category: self.category@ }
    }
}

impl Clone for InputSource {
    fn clone(&self) -> (copy: Self)
        ensures
            copy@ == self@,
    {
        InputSource {
            id: self.id.clone(),
            name: self.name.clone(),
            category: self.category.clone(),
        }
    }
}

/// The values of a list of input sources, in order.
pub open spec fn source_views(list: Seq<InputSource>) -> Seq<InputSourceView> {
    list.map_values(|s: InputSource| s@)
}

/// Whether some entry of a catalog has the given id.
pub open spec fn has_id(catalog: Seq<InputSourceView>, id: Seq<char>) -> bool {
    exists|i: int| 0 <= i < catalog.len() && (#[trigger] catalog[i]).id == id
}

/// The families of input source that the platform distinguishes.
#[derive(Clone, Copy, Debug, PartialEq, Eq, Structural)]
pub enum SourceType {
    /// One mode of an input method.
    InputMode,
    /// A plain keyboard layout.
    KeyboardLayout,
    /// An input method that has no modes.
    InputMethodWithoutModes,
    /// Anything else: palettes, ink, and so on.
    Other,
}

/// The category that the platform gives to keyboard input sources.
pub open spec fn keyboard_category() -> Seq<char> {
    "TISCategoryKeyboardInputSource"@
}

/// The family that a platform type name stands for.
pub open spec fn source_type_of(name: Seq<char>) -> SourceType {
    if name == "TISTypeKeyboardInputMode"@ {
        SourceType::InputMode
    } else if name == "TISTypeKeyboardInputMethodWithoutModes"@ {
        SourceType::InputMethodWithoutModes
    } else if name == "TISTypeKeyboardLayout"@ {
        SourceType::KeyboardLayout
    } else {
        SourceType::Other
    }
}

impl SourceType {
    /// Reads the family from the platform's type name.
    pub fn from_type_name(name: &str) -> (kind: SourceType)
        ensures
            kind == source_type_of(name@),
    {
        if text_eq(name, "TISTypeKeyboardInputMode") {
            SourceType::InputMode
        } else if text_eq(name, "TISTypeKeyboardInputMethodWithoutModes") {
            SourceType::InputMethodWithoutModes
        } else if text_eq(name, "TISTypeKeyboardLayout") {
            SourceType::KeyboardLayout
        } else {
            SourceType::Other
        }
    }
}

/// One entry of the platform's enumeration, before any filtering.
#[derive(Debug)]
pub struct RawSource {
    pub source: InputSource,
    pub source_type: SourceType,
    pub enabled: bool,
    pub selectable: bool,
    pub keyboard_layout_id: Option<i64>,
    pub bundle_id: Option<String>,
    pub input_mode_id: Option<String>,
}

/// The mathematical value of a [`RawSource`].
pub struct RawSourceView {
    pub source: InputSourceView,
    pub source_type: SourceType,
    pub enabled: bool,
    pub selectable: bool,
    pub keyboard_layout_id: Option<i64>,
    pub bundle_id: Option<Seq<char>>,
    pub input_mode_id: Option<Seq<char>>,
}

impl View for RawSource {
    type V = RawSourceView;

    open spec fn view(&self) -> RawSourceView {
        RawSourceView {
            source: self.source@,
            source_type: self.source_type,
            enabled: self.enabled,
            selectable: self.selectable,
            keyboard_layout_id: self.keyboard_layout_id,
            bundle_id: opt_text(self.bundle_id),
            input_mode_id: opt_text(self.input_mode_id),
        }
    }
}

/// The values of a list of raw sources, in order.
pub open spec fn raw_views(list: Seq<RawSource>) -> Seq<RawSourceView> {
    list.map_values(|s: RawSource| s@)
}

/// Base eligibility: an enabled, selectable keyboard source of one of the
/// three families that can be switched to.
pub open spec fn eligible(raw: RawSourceView) -> bool {
    &&& raw.source.category == keyboard_category()
    &&& raw.source_type != SourceType::Other
    &&& raw.enabled
    &&& raw.selectable
}

/// The map that a list of key and value pairs builds when they are inserted
/// in order: a later pair replaces an earlier one with the same key.
pub open spec fn pair_map(pairs: Seq<(String, String)>) -> Map<Seq<char>, Seq<char>>
    decreases pairs.len(),
{
    if pairs.len() == 0 {
        Map::empty()
    } else {
        pair_map(pairs.drop_last()).insert(pairs.last().0@, pairs.last().1@)
    }
}

/// What the keyboard preferences record about the sources shown in the menu.
#[derive(Debug)]
pub struct MenuEnabledSources {
    /// Ids of the input modes that the menu shows.
    pub input_mode_ids: Vec<String>,
    /// For an input mode id, the input method bundle it was enabled under.
    /// A later pair replaces an earlier one with the same mode id.
    pub input_mode_parent_bundles: Vec<(String, String)>,
    /// Numeric ids of the keyboard layouts that the menu shows.
    pub keyboard_layout_ids: HashSet<i64>,
    /// Names of the keyboard layouts that the menu shows.
    pub keyboard_layout_names: Vec<String>,
    /// Bundle ids of the input methods that the menu shows.
    pub keyboard_input_method_bundle_ids: Vec<String>,
}

/// The mathematical value of [`MenuEnabledSources`]: four sets and a map.
pub struct MenuView {
    pub input_mode_ids: Set<Seq<char>>,
    pub input_mode_parent_bundles: Map<Seq<char>, Seq<char>>,
    pub keyboard_layout_ids: Set<i64>,
    pub keyboard_layout_names: Set<Seq<char>>,
    pub keyboard_input_method_bundle_ids: Set<Seq<char>>,
}

impl MenuView {
    /// No entry in any of the five collections.
    pub open spec fn is_empty(self) -> bool {
        &&& no_members(self.input_mode_ids)
        &&& no_members(self.input_mode_parent_bundles.dom())
        &&& no_members(self.keyboard_layout_ids)
        &&& no_members(self.keyboard_layout_names)
        &&& no_members(self.keyboard_input_method_bundle_ids)
    }

    /// The allowed mode id that stands for a source: its own id if that is
    /// allowed, else its mode id if that is allowed.
    pub open spec fn mode_key(self, id: Seq<char>, mode_id: Option<Seq<char>>) -> Option<
        Seq<char>,
    > {
        if self.input_mode_ids.contains(id) {
            Some(id)
        } else if mode_id is Some && self.input_mode_ids.contains(mode_id->0) {
            mode_id
        } else {
            None
        }
    }

    /// Whether an input mode is shown in the menu.
    pub open spec fn accepts_input_mode(
        self,
        id: Seq<char>,
        bundle_id: Option<Seq<char>>,
        mode_id: Option<Seq<char>>,
    ) -> bool {
        match self.mode_key(id, mode_id) {
            None => false,
            Some(key) => {
                if self.input_mode_parent_bundles.contains_key(key) {
                    let parent = self.input_mode_parent_bundles[key];
                    &&& bundle_id == Some(parent)
                    &&& (no_members(self.keyboard_input_method_bundle_ids)
                        || self.keyboard_input_method_bundle_ids.contains(parent))
                } else {
                    true
                }
            },
        }
    }

    /// Whether an input method without modes is shown in the menu.
    pub open spec fn accepts_input_method(self, id: Seq<char>, bundle_id: Option<Seq<char>>) -> bool {
        ||| no_members(self.keyboard_input_method_bundle_ids)
        ||| self.keyboard_input_method_bundle_ids.contains(id)
        ||| (bundle_id is Some && self.keyboard_input_method_bundle_ids.contains(bundle_id->0))
    }

    /// Whether a keyboard layout is shown in the menu.
    pub open spec fn accepts_layout(self, name: Seq<char>, layout_id: Option<i64>) -> bool {
        ||| (no_members(self.keyboard_layout_ids) && no_members(self.keyboard_layout_names))
        ||| (layout_id is Some && self.keyboard_layout_ids.contains(layout_id->0))
        ||| self.keyboard_layout_names.contains(name)
    }

    /// Whether the menu shows a source of the given family.
    pub open spec fn accepts(
        self,
        kind: SourceType,
        id: Seq<char>,
        name: Seq<char>,
        layout_id: Option<i64>,
        bundle_id: Option<Seq<char>>,
        mode_id: Option<Seq<char>>,
    ) -> bool {
        match kind {
            SourceType::InputMode => self.accepts_input_mode(id, bundle_id, mode_id),
            SourceType::InputMethodWithoutModes => self.accepts_input_method(id, bundle_id),
            SourceType::KeyboardLayout => self.accepts_layout(name, layout_id),
            SourceType::Other => false,
        }
    }

    /// Whether the menu shows a raw source.
    pub open spec fn accepts_raw(self, raw: RawSourceView) -> bool {
        self.accepts(
            raw.source_type,
            raw.source.id,
            raw.source.name,
            raw.keyboard_layout_id,
            raw.bundle_id,
            raw.input_mode_id,
        )
    }
}

impl View for MenuEnabledSources {
    type V = MenuView;

    open spec fn view(&self) -> MenuView {
        MenuView {
            input_mode_ids: text_set(self.input_mode_ids@),
            input_mode_parent_bundles: pair_map(self.input_mode_parent_bundles@),
            keyboard_layout_ids: self.keyboard_layout_ids@,
            keyboard_layout_names: text_set(self.keyboard_layout_names@),
            keyboard_input_method_bundle_ids: text_set(self.keyboard_input_method_bundle_ids@),
        }
    }
}

/// The value of an optional borrowed menu record.
pub open spec fn opt_menu_view(menu: Option<&MenuEnabledSources>) -> Option<MenuView> {
    match menu {
        Some(m) => Some(m@),
        None => None,
    }
}

/// Looks a key up in a list of pairs; the last pair with the key counts.
fn lookup_pair<'a>(pairs: &'a Vec<(String, String)>, key: &str) -> (found: Option<&'a String>)
    ensures
        match found {
            Some(v) => pair_map(pairs@).contains_key(key@) && pair_map(pairs@)[key@] == v@,
            None => !pair_map(pairs@).contains_key(key@),
        },
{
    let mut found: Option<&String> = None;
    let mut i: usize = 0;
    while i < pairs.len()
        invariant
            i <= pairs.len(),
            match found {
                Some(v) => pair_map(pairs@.take(i as int)).contains_key(key@) && pair_map(
                    pairs@.take(i as int),
                )[key@] == v@,
                None => !pair_map(pairs@.take(i as int)).contains_key(key@),
            },
        decreases pairs.len() - i,
    {
        proof {
            assert(pairs@.take(i + 1).drop_last() =~= pairs@.take(i as int));
        }
        if text_eq(pairs[i].0.as_str(), key) {
            found = Some(&pairs[i].1);
        }
        i += 1;
    }
    proof {
        assert(pairs@.take(pairs.len() as int) =~= pairs@);
    }
    found
}

impl MenuEnabledSources {
    /// A record with no entries.
    pub fn new() -> (menu: Self)
        ensures
            menu@.is_empty(),
            menu.input_mode_ids@.len() == 0,
            menu.input_mode_parent_bundles@.len() == 0,
            menu.keyboard_layout_ids@ == Set::<i64>::empty(),
            menu.keyboard_layout_names@.len() == 0,
            menu.keyboard_input_method_bundle_ids@.len() == 0,
    {
        let menu = MenuEnabledSources {
            input_mode_ids: Vec::new(),
            input_mode_parent_bundles: Vec::new(),
            keyboard_layout_ids: HashSet::new(),
            keyboard_layout_names: Vec::new(),
            keyboard_input_method_bundle_ids: Vec::new(),
        };
        proof {
            menu.lemma_empty_lists();
        }
        menu
    }

    /// The record has no entry exactly when its five collections are empty.
    pub proof fn lemma_empty_lists(self)
        ensures
            self@.is_empty() <==> (self.input_mode_ids@.len() == 0
                && self.input_mode_parent_bundles@.len() == 0
                && self.keyboard_layout_ids@.is_empty() && self.keyboard_layout_names@.len() == 0
                && self.keyboard_input_method_bundle_ids@.len() == 0),
            no_members(self@.keyboard_input_method_bundle_ids)
                <==> self.keyboard_input_method_bundle_ids@.len() == 0,
            no_members(self@.keyboard_layout_ids) <==> self.keyboard_layout_ids@.is_empty(),
            no_members(self@.keyboard_layout_names) <==> self.keyboard_layout_names@.len() == 0,
    {
        lemma_text_set_empty(self.input_mode_ids@);
        lemma_text_set_empty(self.keyboard_layout_names@);
        lemma_text_set_empty(self.keyboard_input_method_bundle_ids@);
        let pairs = self.input_mode_parent_bundles@;
        if pairs.len() > 0 {
            assert(pair_map(pairs).dom().contains(pairs.last().0@));
        } else {
            assert(pair_map(pairs) =~= Map::empty());
        }
    }

    /// Whether the record holds no entry at all.
    pub fn is_empty(&self) -> (empty: bool)
        ensures
            empty == self@.is_empty(),
    {
        proof {
            self.lemma_empty_lists();
        }
        self.input_mode_ids.len() == 0 && self.input_mode_parent_bundles.len() == 0
            && self.keyboard_layout_ids.is_empty() && self.keyboard_layout_names.len() == 0
            && self.keyboard_input_method_bundle_ids.len() == 0
    }

    /// Whether the menu shows a source of the given family.
    pub fn accepts(
        &self,
        kind: SourceType,
        source: &InputSource,
        keyboard_layout_id: Option<i64>,
        bundle_id: Option<&str>,
        input_mode_id: Option<&str>,
    ) -> (shown: bool)
        ensures
            shown == self@.accepts(
                kind,
                source.id@,
                source.name@,
                keyboard_layout_id,
                opt_str_text(bundle_id),
                opt_str_text(input_mode_id),
            ),
    {
        broadcast use group_hash_axioms;

        proof {
            self.lemma_empty_lists();
        }
        match kind {
            SourceType::InputMode => {
                let mode_key: Option<&str> = if list_has(
                    &self.input_mode_ids,
                    source.id.as_str(),
                ) {
                    Some(source.id.as_str())
                } else {
                    match input_mode_id {
                        Some(mode_id) => {
                            if list_has(&self.input_mode_ids, mode_id) {
                                Some(mode_id)
                            } else {
                                None
                            }
                        },
                        None => None,
                    }
                };
                assert(opt_str_text(mode_key) == self@.mode_key(
                    source.id@,
                    opt_str_text(input_mode_id),
                ));
                match mode_key {
                    None => false,
                    Some(key) => {
                        match lookup_pair(&self.input_mode_parent_bundles, key) {
                            None => true,
                            Some(parent_bundle) => {
                                match bundle_id {
                                    None => false,
                                    Some(source_bundle) => {
                                        if !text_eq(source_bundle, parent_bundle.as_str()) {
                                            false
                                        } else {
                                            self.keyboard_input_method_bundle_ids.len() == 0
                                                || list_has(
                                                &self.keyboard_input_method_bundle_ids,
                                                parent_bundle.as_str(),
                                            )
                                        }
                                    },
                                }
                            },
                        }
                    },
                }
            },
            SourceType::InputMethodWithoutModes => {
                if self.keyboard_input_method_bundle_ids.len() == 0 {
                    true
                } else if list_has(&self.keyboard_input_method_bundle_ids, source.id.as_str()) {
                    true
                } else {
                    match bundle_id {
                        Some(bundle) => list_has(&self.keyboard_input_method_bundle_ids, bundle),
                        None => false,
                    }
                }
            },
            SourceType::KeyboardLayout => {
                if self.keyboard_layout_ids.is_empty() && self.keyboard_layout_names.len() == 0 {
                    true
                } else {
                    let by_id = match keyboard_layout_id {
                        Some(layout_id) => self.keyboard_layout_ids.contains(&layout_id),
                        None => false,
                    };
                    by_id || list_has(&self.keyboard_layout_names, source.name.as_str())
                }
            },
            SourceType::Other => false,
        }
    }

    /// Whether the menu shows a source whose family is given by the
    /// platform's type name.
    pub fn matches(
        &self,
        source: &InputSource,
        source_type: &str,
        keyboard_layout_id: Option<i64>,
        bundle_id: Option<&str>,
        input_mode_id: Option<&str>,
    ) -> (shown: bool)
        ensures
            shown == self@.accepts(
                source_type_of(source_type@),
                source.id@,
                source.name@,
                keyboard_layout_id,
                opt_str_text(bundle_id),
                opt_str_text(input_mode_id),
            ),
    {
        self.accepts(
            SourceType::from_type_name(source_type),
            source,
            keyboard_layout_id,
            bundle_id,
            input_mode_id,
        )
    }

    /// Whether the menu shows a raw source.
    pub fn accepts_raw(&self, raw: &RawSource) -> (shown: bool)
        ensures
            shown == self@.accepts_raw(raw@),
    {
        self.accepts(
            raw.source_type,
            &raw.source,
            raw.keyboard_layout_id,
            opt_as_str(&raw.bundle_id),
            opt_as_str(&raw.input_mode_id),
        )
    }
}

/// The set of texts that occur in a list of borrowed strings.
pub open spec fn str_set(list: Seq<&str>) -> Set<Seq<char>> {
    Set::new(|t: Seq<char>| exists|i: int| 0 <= i < list.len() && #[trigger] list[i]@ == t)
}

/// The map that a list of borrowed pairs builds when they are inserted in
/// order.
pub open spec fn str_pair_map(pairs: Seq<(&str, &str)>) -> Map<Seq<char>, Seq<char>>
    decreases pairs.len(),
{
    if pairs.len() == 0 {
        Map::empty()
    } else {
        str_pair_map(pairs.drop_last()).insert(pairs.last().0@, pairs.last().1@)
    }
}

/// The menu record that five plain lists describe.
pub open spec fn menu_of_lists(
    input_mode_ids: Seq<&str>,
    input_mode_parent_pairs: Seq<(&str, &str)>,
    keyboard_layout_ids: Seq<i64>,
    keyboard_layout_names: Seq<&str>,
    keyboard_input_method_bundle_ids: Seq<&str>,
) -> MenuView {
    MenuView {
        input_mode_ids: str_set(input_mode_ids),
        input_mode_parent_bundles: str_pair_map(input_mode_parent_pairs),
        keyboard_layout_ids: keyboard_layout_ids.to_set(),
        keyboard_layout_names: str_set(keyboard_layout_names),
        keyboard_input_method_bundle_ids: str_set(keyboard_input_method_bundle_ids),
    }
}

/// Owned copies of a list of borrowed strings.
fn owned_texts(list: &[&str]) -> (owned: Vec<String>)
    ensures
        text_set(owned@) == str_set(list@),
{
    let mut owned: Vec<String> = Vec::new();
    let mut i: usize = 0;
    while i < list.len()
        invariant
            i <= list.len(),
            owned@.len() == i,
            forall|j: int| 0 <= j < i ==> (#[trigger] owned[j])@ == list[j]@,
        decreases list.len() - i,
    {
        owned.push(list[i].to_owned());
        i += 1;
    }
    proof {
        assert forall|t: Seq<char>| text_set(owned@).contains(t) <==> str_set(list@).contains(
            t,
        ) by {
            if text_set(owned@).contains(t) {
                let j = choose|j: int| 0 <= j < owned@.len() && (#[trigger] owned@[j])@ == t;
                assert(list@[j]@ == t);
            }
            if str_set(list@).contains(t) {
                let j = choose|j: int| 0 <= j < list@.len() && (#[trigger] list@[j])@ == t;
                assert(owned@[j]@ == t);
            }
        }
        assert(text_set(owned@) =~= str_set(list@));
    }
    owned
}

/// Owned copies of a list of borrowed pairs.
fn owned_pairs(list: &[(&str, &str)]) -> (owned: Vec<(String, String)>)
    ensures
        pair_map(owned@) == str_pair_map(list@),
{
    let mut owned: Vec<(String, String)> = Vec::new();
    let mut i: usize = 0;
    while i < list.len()
        invariant
            i <= list.len(),
            pair_map(owned@) == str_pair_map(list@.take(i as int)),
        decreases list.len() - i,
    {
        let ghost before = owned@;
        let key = list[i].0.to_owned();
        let value = list[i].1.to_owned();
        owned.push((key, value));
        proof {
            assert(owned@.drop_last() =~= before);
            assert(list@.take(i + 1).drop_last() =~= list@.take(i as int));
        }
        i += 1;
    }
    proof {
        assert(list@.take(list.len() as int) =~= list@);
    }
    owned
}

/// The set of the layout ids of a list.
fn owned_ids(list: &[i64]) -> (owned: HashSet<i64>)
    ensures
        owned@ == list@.to_set(),
{
    broadcast use group_hash_axioms;

    let mut owned: HashSet<i64> = HashSet::new();
    let mut i: usize = 0;
    proof {
        assert(list@.take(0).to_set() =~= Set::<i64>::empty());
    }
    while i < list.len()
        invariant
            i <= list.len(),
            owned@ == list@.take(i as int).to_set(),
        decreases list.len() - i,
    {
        owned.insert(list[i]);
        proof {
            let before = list@.take(i as int);
            let after = list@.take(i + 1);
            assert(after =~= before.push(list@[i as int]));
            assert forall|a: i64| after.to_set().contains(a) <==> before.to_set().insert(
                list@[i as int],
            ).contains(a) by {
                if after.contains(a) {
                    let j = choose|j: int| 0 <= j < after.len() && after[j] == a;
                    if j < before.len() {
                        assert(before[j] == a);
                    }
                }
                if before.contains(a) {
                    let j = choose|j: int| 0 <= j < before.len() && before[j] == a;
                    assert(after[j] == a);
                }
                if a == list@[i as int] {
                    assert(after[i as int] == a);
                }
            }
            assert(after.to_set() =~= before.to_set().insert(list@[i as int]));
        }
        i += 1;
    }
    proof {
        assert(list@.take(list.len() as int) =~= list@);
    }
    owned
}

/// The platform's name for the family of input methods without modes.
pub open spec fn input_method_type_name() -> Seq<char> {
    "TISTypeKeyboardInputMethodWithoutModes"@
}

/// Base eligibility from the platform's names: the source is of the keyboard
/// category, is a layout, an input mode or an input method without modes,
/// and is enabled and selectable. With the platform's own names for the
/// category and the two named families, this is the eligibility of a raw
/// source.
pub fn should_include_source(
    category: &str,
    source_type: &str,
    keyboard_category: &str,
    keyboard_layout_type: &str,
    keyboard_input_mode_type: &str,
    is_enabled: bool,
    is_select_capable: bool,
) -> (keep: bool)
    ensures
        keep == (category@ == keyboard_category@ && (source_type@ == keyboard_layout_type@
            || source_type@ == keyboard_input_mode_type@ || source_type@
            == input_method_type_name()) && is_enabled && is_select_capable),
        (keyboard_category@ == self::keyboard_category() && keyboard_layout_type@
            == "TISTypeKeyboardLayout"@ && keyboard_input_mode_type@ == "TISTypeKeyboardInputMode"@)
            ==> keep == (category@ == self::keyboard_category() && source_type_of(source_type@)
            != SourceType::Other && is_enabled && is_select_capable),
{
    text_eq(category, keyboard_category) && (text_eq(source_type, keyboard_layout_type)
        || text_eq(source_type, keyboard_input_mode_type) || text_eq(
        source_type,
        "TISTypeKeyboardInputMethodWithoutModes",
    )) && is_enabled && is_select_capable
}

/// Whether a menu record given as five plain lists shows a source given by
/// its plain properties.
pub fn should_include_menu_enabled_source(
    source_id: &str,
    source_name: &str,
    source_type: &str,
    source_layout_id: Option<i64>,
    source_bundle_id: Option<&str>,
    source_input_mode_id: Option<&str>,
    input_mode_ids: &[&str],
    input_mode_parent_pairs: &[(&str, &str)],
    keyboard_layout_ids: &[i64],
    keyboard_layout_names: &[&str],
    keyboard_input_method_bundle_ids: &[&str],
) -> (keep: bool)
    ensures
        keep == menu_of_lists(
            input_mode_ids@,
            input_mode_parent_pairs@,
            keyboard_layout_ids@,
            keyboard_layout_names@,
            keyboard_input_method_bundle_ids@,
        ).accepts(
            source_type_of(source_type@),
            source_id@,
            source_name@,
            source_layout_id,
            opt_str_text(source_bundle_id),
            opt_str_text(source_input_mode_id),
        ),
{
    let filter = MenuEnabledSources {
        input_mode_ids: owned_texts(input_mode_ids),
        input_mode_parent_bundles: owned_pairs(input_mode_parent_pairs),
        keyboard_layout_ids: owned_ids(keyboard_layout_ids),
        keyboard_layout_names: owned_texts(keyboard_layout_names),
        keyboard_input_method_bundle_ids: owned_texts(keyboard_input_method_bundle_ids),
    };
    let source = InputSource {
        id: source_id.to_owned(),
        name: source_name.to_owned(),
        category: "TISCategoryKeyboardInputSource".to_owned(),
    };
    assert(filter@ == menu_of_lists(
        input_mode_ids@,
        input_mode_parent_pairs@,
        keyboard_layout_ids@,
        keyboard_layout_names@,
        keyboard_input_method_bundle_ids@,
    ));
    filter.matches(
        &source,
        source_type,
        source_layout_id,
        source_bundle_id,
        source_input_mode_id,
    )
}

impl RawSource {
    /// Base eligibility of a raw source.
    pub fn is_selectable_keyboard_source(&self) -> (keep: bool)
        ensures
            keep == eligible(self@),
    {
        let known_type = match self.source_type {
            SourceType::Other => false,
            _ => true,
        };
        text_eq(self.source.category.as_str(), "TISCategoryKeyboardInputSource") && known_type
            && self.enabled && self.selectable
    }
}

impl RawSource {
    /// The raw source that the platform's properties describe. A source
    /// without id, name, category or type describes none; one that does not
    /// say whether it is enabled or selectable counts as neither.
    pub fn from_properties(
        id: Option<String>,
        name: Option<String>,
        category: Option<String>,
        source_type: Option<String>,
        enabled: Option<bool>,
        selectable: Option<bool>,
        keyboard_layout_id: Option<i64>,
        bundle_id: Option<String>,
        input_mode_id: Option<String>,
    ) -> (raw: Option<RawSource>)
        ensures
            raw is Some <==> (id is Some && name is Some && category is Some && source_type is Some),
            raw is Some ==> raw->0@ == (RawSourceView {
                source: InputSourceView { id: id->0@, name: name->0@, category: category->0@ },
                source_type: source_type_of(source_type->0@),
                enabled: enabled == Some(true),
                selectable: selectable == Some(true),
                keyboard_layout_id,
                bundle_id: opt_text(bundle_id),
                input_mode_id: opt_text(input_mode_id),
            }),
    {
        match (id, name, category, source_type) {
            (Some(id), Some(name), Some(category), Some(kind_name)) => Some(
                RawSource {
                    source: InputSource { id, name, category },
                    source_type: SourceType::from_type_name(kind_name.as_str()),
                    enabled: match enabled {
                        Some(flag) => flag,
                        None => false,
                    },
                    selectable: match selectable {
                        Some(flag) => flag,
                        None => false,
                    },
                    keyboard_layout_id,
                    bundle_id,
                    input_mode_id,
                },
            ),
            _ => None,
        }
    }
}

/// The first place of a list of reported ids that holds the given id. A
/// source that reports no id is passed over.
pub open spec fn first_with_id(ids: Seq<Option<String>>, source_id: Seq<char>) -> Option<int>
    decreases ids.len(),
{
    if ids.len() == 0 {
        None
    } else if first_with_id(ids.drop_last(), source_id) is Some {
        first_with_id(ids.drop_last(), source_id)
    } else if opt_text(ids.last()) == Some(source_id) {
        Some(ids.len() - 1)
    } else {
        None
    }
}

/// Finds the source to select among the ids that the platform reports, in
/// enumeration order: the first that has the given id.
pub fn find_source_to_select(ids: &[Option<String>], source_id: &str) -> (place: Option<usize>)
    ensures
        match place {
            Some(i) => first_with_id(ids@, source_id@) == Some(i as int) && i < ids.len(),
            None => first_with_id(ids@, source_id@) is None,
        },
{
    let mut i: usize = 0;
    proof {
        assert(ids@.take(0) =~= Seq::empty());
    }
    while i < ids.len()
        invariant
            i <= ids.len(),
            first_with_id(ids@.take(i as int), source_id@) is None,
        decreases ids.len() - i,
    {
        proof {
            assert(ids@.take(i + 1).drop_last() =~= ids@.take(i as int));
            assert(ids@.take(i + 1).last() == ids[i as int]);
        }
        let hit = match &ids[i] {
            Some(id) => text_eq(id.as_str(), source_id),
            None => false,
        };
        if hit {
            proof {
                lemma_first_with_id_extends(ids@, i + 1, source_id@);
            }
            return Some(i);
        }
        i += 1;
    }
    proof {
        assert(ids@.take(ids.len() as int) =~= ids@);
    }
    None
}

/// A place found in a front part of a list stays the first place in the
/// whole list.
proof fn lemma_first_with_id_extends(ids: Seq<Option<String>>, n: int, source_id: Seq<char>)
    requires
        0 <= n <= ids.len(),
        first_with_id(ids.take(n), source_id) is Some,
    ensures
        first_with_id(ids, source_id) == first_with_id(ids.take(n), source_id),
    decreases ids.len() - n,
{
    if n < ids.len() {
        assert(ids.take(n + 1).drop_last() =~= ids.take(n));
        lemma_first_with_id_extends(ids, n + 1, source_id);
    } else {
        assert(ids.take(n) =~= ids);
    }
}

/// The result of selecting an input source: success when the source was
/// found and the platform's call returned status zero; else an error that
/// names the status, or the id that was not found.
pub fn selection_result(source_id: &str, select_status: Option<i32>) -> (result: Result<
    (),
    AppError,
>)
    ensures
        result is Ok <==> select_status == Some(0i32),
        result matches Err(e) ==> e matches AppError::InputSource(m) && m@ == (match select_status {
            Some(status) => "TISSelectInputSource failed with status: "@ + decimal(status as int),
            None => "Input source not found: "@ + source_id@,
        }),
{
    match select_status {
        Some(status) => {
            if status == 0 {
                Ok(())
            } else {
                let mut message = "TISSelectInputSource failed with status: ".to_owned();
                message.append(int_text(status).as_str());
                Err(AppError::InputSource(message))
            }
        },
        None => {
            let mut message = "Input source not found: ".to_owned();
            message.append(source_id);
            Err(AppError::InputSource(message))
        },
    }
}

/// The error for an enumeration that the platform could not start.
pub fn enumeration_failed() -> (error: AppError)
    ensures
        error matches AppError::InputSource(m) && m@ == "Failed to create input source list"@,
{
    AppError::InputSource("Failed to create input source list".to_owned())
}

} // verus!
