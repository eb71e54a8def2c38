//! Building the catalog from the platform's enumeration.

use vstd::prelude::*;
use crate::input_source::{
    eligible, has_id, opt_menu_view, raw_views, source_views, InputSource, InputSourceView,
    MenuEnabledSources, MenuView, RawSource, RawSourceView,
};
use crate::text::text_eq;

verus! {

/// Whether menu matching is skipped: no record, or a record without entries.
pub open spec fn menu_absent(menu: Option<MenuView>) -> bool {
    menu is None || menu->0.is_empty()
}

/// Whether a raw source survives eligibility and menu matching.
pub open spec fn passes(raw: RawSourceView, menu: Option<MenuView>) -> bool {
    eligible(raw) && (menu_absent(menu) || menu->0.accepts_raw(raw))
}

/// The catalog of an enumeration: the sources that pass, in enumeration
/// order, each id once, the first occurrence kept.
pub open spec fn catalog_of(raws: Seq<RawSourceView>, menu: Option<MenuView>) -> Seq<
    InputSourceView,
>
    decreases raws.len(),
{
    if raws.len() == 0 {
        Seq::empty()
    } else {
        let earlier = catalog_of(raws.drop_last(), menu);
        let raw = raws.last();
        if passes(raw, menu) && !has_id(earlier, raw.source.id) {
            earlier.push(raw.source)
        } else {
            earlier
        }
    }
}

/// Whether a catalog holds an id.
pub fn catalog_has_id(sources: &[InputSource], id: &str) -> (found: bool)
    ensures
        found == has_id(source_views(sources@), id@),
{
    let mut i: usize = 0;
    while i < sources.len()
        invariant
            i <= sources.len(),
            forall|j: int| 0 <= j < i ==> (#[trigger] source_views(sources@)[j]).id != id@,
        decreases sources.len() - i,
    {
        if text_eq(sources[i].id.as_str(), id) {
            proof {
                assert(source_views(sources@)[i as int].id == id@);
            }
            return true;
        }
        i += 1;
    }
    false
}

/// Builds the catalog of selectable input sources from the platform's
/// enumeration and the optional record of what the menu shows.
pub fn build_source_catalog(
    raw_sources: &[RawSource],
    menu_enabled: Option<&MenuEnabledSources>,
) -> (sources: Vec<InputSource>)
    ensures
        source_views(sources@) == catalog_of(raw_views(raw_sources@), opt_menu_view(menu_enabled)),
        forall|i: int|
            0 <= i < sources@.len() ==> enumerated_id(
                (#[trigger] sources@[i]).id@,
                raw_views(raw_sources@),
            ),
{
    let ghost menu = opt_menu_view(menu_enabled);
    let ghost raws = raw_views(raw_sources@);
    let skip_menu = match menu_enabled {
        Some(filter) => filter.is_empty(),
        None => true,
    };
    let mut sources: Vec<InputSource> = Vec::new();
    let mut i: usize = 0;
    proof {
        assert(source_views(sources@) =~= catalog_of(raws.take(0), menu));
    }
    while i < raw_sources.len()
        invariant
            i <= raw_sources.len(),
            menu == opt_menu_view(menu_enabled),
            raws == raw_views(raw_sources@),
            skip_menu == menu_absent(menu),
            source_views(sources@) == catalog_of(raws.take(i as int), menu),
        decreases raw_sources.len() - i,
    {
        let raw = &raw_sources[i];
        proof {
            assert(raws.take(i + 1).drop_last() =~= raws.take(i as int));
            assert(raws.take(i + 1).last() == raw@);
        }
        let shown = raw.is_selectable_keyboard_source() && (skip_menu || match menu_enabled {
            Some(filter) => filter.accepts_raw(raw),
            None => true,
        });
        if shown && !catalog_has_id(sources.as_slice(), raw.source.id.as_str()) {
            let ghost before = source_views(sources@);
            sources.push(raw.source.clone());
            proof {
                assert(source_views(sources@) =~= before.push(raw@.source));
            }
        }
        i += 1;
    }
    proof {
        assert(raws.take(raw_sources.len() as int) =~= raws);
        catalog_ids_are_enumerated_ids(raws, menu);
        assert forall|i: int| 0 <= i < sources@.len() implies enumerated_id(
            (#[trigger] sources@[i]).id@,
            raws,
        ) by {
            assert(source_views(sources@)[i].id == sources@[i].id@);
        }
    }
    sources
}

/// Whether a catalog entry is the source of an entry of the enumeration that
/// passes eligibility and menu matching.
pub open spec fn reported(
    entry: InputSourceView,
    raws: Seq<RawSourceView>,
    menu: Option<MenuView>,
) -> bool {
    exists|j: int| 0 <= j < raws.len() && passes(#[trigger] raws[j], menu) && entry == raws[j].source
}

/// Whether an id is the id of some entry of the enumeration.
pub open spec fn enumerated_id(id: Seq<char>, raws: Seq<RawSourceView>) -> bool {
    exists|j: int| 0 <= j < raws.len() && (#[trigger] raws[j]).source.id == id
}

/// The catalog never holds a source that the platform did not report: each
/// entry is the source of an eligible entry of the enumeration that the menu
/// lets pass.
pub proof fn catalog_entries_come_from_enumeration(
    raws: Seq<RawSourceView>,
    menu: Option<MenuView>,
)
    ensures
        forall|i: int|
            0 <= i < catalog_of(raws, menu).len() ==> reported(
                #[trigger] catalog_of(raws, menu)[i],
                raws,
                menu,
            ),
    decreases raws.len(),
{
    if raws.len() > 0 {
        let front = raws.drop_last();
        catalog_entries_come_from_enumeration(front, menu);
        let earlier = catalog_of(front, menu);
        let out = catalog_of(raws, menu);
        assert forall|i: int| 0 <= i < out.len() implies reported(#[trigger] out[i], raws, menu) by {
            if i < earlier.len() {
                assert(out[i] == earlier[i]);
                assert(reported(earlier[i], front, menu));
                let j = choose|j: int|
                    0 <= j < front.len() && passes(#[trigger] front[j], menu) && earlier[i]
                        == front[j].source;
                assert(raws[j] == front[j]);
            } else {
                let j = raws.len() - 1;
                assert(passes(raws[j], menu) && out[i] == raws[j].source);
            }
        }
    }
}

/// Every id of the catalog is the id of an entry of the enumeration.
pub proof fn catalog_ids_are_enumerated_ids(raws: Seq<RawSourceView>, menu: Option<MenuView>)
    ensures
        forall|i: int|
            0 <= i < catalog_of(raws, menu).len() ==> enumerated_id(
                (#[trigger] catalog_of(raws, menu)[i]).id,
                raws,
            ),
{
    catalog_entries_come_from_enumeration(raws, menu);
    let out = catalog_of(raws, menu);
    assert forall|i: int| 0 <= i < out.len() implies enumerated_id((#[trigger] out[i]).id, raws) by {
        assert(reported(out[i], raws, menu));
        let j = choose|j: int|
            0 <= j < raws.len() && passes(#[trigger] raws[j], menu) && out[i] == raws[j].source;
        assert(raws[j].source.id == out[i].id);
    }
}

/// No id occurs twice in the catalog.
pub proof fn catalog_ids_are_unique(raws: Seq<RawSourceView>, menu: Option<MenuView>)
    ensures
        forall|i: int, j: int|
            0 <= i < j < catalog_of(raws, menu).len() ==> (#[trigger] catalog_of(raws, menu)[i]).id
                != (#[trigger] catalog_of(raws, menu)[j]).id,
    decreases raws.len(),
{
    if raws.len() > 0 {
        catalog_ids_are_unique(raws.drop_last(), menu);
        let earlier = catalog_of(raws.drop_last(), menu);
        let out = catalog_of(raws, menu);
        assert forall|i: int, j: int| 0 <= i < j < out.len() implies (#[trigger] out[i]).id != (
        #[trigger] out[j]).id by {
            if j < earlier.len() {
                assert(out[i] == earlier[i] && out[j] == earlier[j]);
            } else {
                assert(out[i] == earlier[i]);
                assert(!has_id(earlier, raws.last().source.id));
            }
        }
    }
}

/// Every entry of the enumeration that passes has its id in the catalog.
pub proof fn catalog_holds_every_passing_id(raws: Seq<RawSourceView>, menu: Option<MenuView>)
    ensures
        forall|j: int|
            0 <= j < raws.len() && passes(#[trigger] raws[j], menu) ==> has_id(
                catalog_of(raws, menu),
                raws[j].source.id,
            ),
    decreases raws.len(),
{
    if raws.len() > 0 {
        let front = raws.drop_last();
        catalog_holds_every_passing_id(front, menu);
        let earlier = catalog_of(front, menu);
        let out = catalog_of(raws, menu);
        assert forall|j: int| 0 <= j < raws.len() && passes(#[trigger] raws[j], menu) implies has_id(
            out,
            raws[j].source.id,
        ) by {
            if j < front.len() {
                assert(front[j] == raws[j]);
                assert(has_id(earlier, raws[j].source.id));
                let k = choose|k: int| 0 <= k < earlier.len() && earlier[k].id == raws[j].source.id;
                assert(out[k] == earlier[k]);
            } else {
                if has_id(earlier, raws[j].source.id) {
                    let k = choose|k: int|
                        0 <= k < earlier.len() && earlier[k].id == raws[j].source.id;
                    assert(out[k] == earlier[k]);
                } else {
                    assert(out[out.len() - 1].id == raws[j].source.id);
                }
            }
        }
    }
}

/// Whether a catalog entry is the source of an eligible entry of the
/// enumeration.
pub open spec fn eligible_source(entry: InputSourceView, raws: Seq<RawSourceView>) -> bool {
    exists|j: int| 0 <= j < raws.len() && eligible(#[trigger] raws[j]) && entry == raws[j].source
}

/// Without a menu record, or with one that has no entries, the catalog is
/// the one that eligibility alone gives: the menu rejects no source of any
/// family.
pub proof fn catalog_fails_open(raws: Seq<RawSourceView>, menu: Option<MenuView>)
    requires
        menu_absent(menu),
    ensures
        catalog_of(raws, menu) == catalog_of(raws, None),
        forall|j: int|
            0 <= j < raws.len() && eligible(#[trigger] raws[j]) ==> has_id(
                catalog_of(raws, menu),
                raws[j].source.id,
            ),
        forall|i: int|
            0 <= i < catalog_of(raws, menu).len() ==> eligible_source(
                #[trigger] catalog_of(raws, menu)[i],
                raws,
            ),
{
    lemma_absent_menu_is_no_menu(raws, menu);
    catalog_holds_every_passing_id(raws, menu);
    catalog_entries_come_from_enumeration(raws, menu);
    let out = catalog_of(raws, menu);
    assert forall|i: int| 0 <= i < out.len() implies eligible_source(#[trigger] out[i], raws) by {
        assert(reported(out[i], raws, menu));
        let j = choose|j: int|
            0 <= j < raws.len() && passes(#[trigger] raws[j], menu) && out[i] == raws[j].source;
        assert(eligible(raws[j]));
    }
}

proof fn lemma_absent_menu_is_no_menu(raws: Seq<RawSourceView>, menu: Option<MenuView>)
    requires
        menu_absent(menu),
    ensures
        catalog_of(raws, menu) == catalog_of(raws, None),
    decreases raws.len(),
{
    if raws.len() > 0 {
        lemma_absent_menu_is_no_menu(raws.drop_last(), menu);
    }
}

} // verus!
