//! Installed applications, as the scanner reports them.

use vstd::prelude::*;
use crate::text::{
    lemma_text_le_reflexive, lemma_text_le_total, lemma_text_le_transitive, lowercased, text_le, text_lowercase,
    text_eq, text_precedes, text_trim, trimmed,
};

verus! {

/// An installed application. Its identity is `bundle_id`.
#[derive(Debug)]
pub struct SystemApp {
    pub name: String,
    pub bundle_id: String,
    pub path: String,
}

/// The mathematical value of a [`SystemApp`].
pub struct SystemAppView {
    pub name: Seq<char>,
    pub bundle_id: Seq<char>,
    pub path: Seq<char>,
}

impl View for SystemApp {
    type V = SystemAppView;

    open spec fn view(&self) -> SystemAppView {
        SystemAppView { name: self.name@, bundle_id: self.bundle_id@, path: self.path@ }
    }
}

impl Clone for SystemApp {
    fn clone(&self) -> (copy: Self)
        ensures
            copy@ == self@,
    {
        SystemApp {
            name: self.name.clone(),
            bundle_id: self.bundle_id.clone(),
            path: self.path.clone(),
        }
    }
}

/// The values of a list of applications, in order.
pub open spec fn app_views(list: Seq<SystemApp>) -> Seq<SystemAppView> {
    list.map_values(|a: SystemApp| a@)
}

/// The display name of a bundle: its display name if the property list has
/// one, else its bundle name, else the stem of its directory name.
pub open spec fn display_name_of(
    display_name: Option<Seq<char>>,
    bundle_name: Option<Seq<char>>,
    file_stem: Seq<char>,
) -> Seq<char> {
    match display_name {
        Some(n) => n,
        None => match bundle_name {
            Some(n) => n,
            None => file_stem,
        },
    }
}

/// The application that the fields of a bundle's property list describe,
/// given its bundle identifier and what is left of the identifier once it
/// is trimmed: none when nothing is left.
pub fn app_from_identified_bundle(
    display_name: Option<String>,
    bundle_name: Option<String>,
    bundle_id: String,
    trimmed_bundle_id: &str,
    file_stem: String,
    path: String,
) -> (app: Option<SystemApp>)
    ensures
        app is Some <==> trimmed_bundle_id@.len() > 0,
        app is Some ==> app->0@ == (SystemAppView {
            name: display_name_of(
                crate::text::opt_text(display_name),
                crate::text::opt_text(bundle_name),
                file_stem@,
            ),
            bundle_id: bundle_id@,
            path: path@,
        }),
{
    if trimmed_bundle_id.is_empty() {
        return None;
    }
    let name = match display_name {
        Some(n) => n,
        None => match bundle_name {
            Some(n) => n,
            None => file_stem,
        },
    };
    Some(SystemApp { name, bundle_id, path })
}

/// The application that the fields of a bundle's property list describe.
/// A bundle without an identifier, or with one that is blank once trimmed,
/// describes none.
pub fn app_from_plist_fields(
    display_name: Option<String>,
    bundle_name: Option<String>,
    bundle_identifier: Option<String>,
    file_stem: String,
    path: String,
) -> (app: Option<SystemApp>)
    ensures
        app is Some <==> (bundle_identifier is Some && trimmed(bundle_identifier->0@).len() > 0),
        app is Some ==> app->0@ == (SystemAppView {
            name: display_name_of(
                crate::text::opt_text(display_name),
                crate::text::opt_text(bundle_name),
                file_stem@,
            ),
            bundle_id: bundle_identifier->0@,
            path: path@,
        }),
{
    match bundle_identifier {
        None => None,
        Some(bundle_id) => {
            let trimmed_bundle_id = text_trim(bundle_id.as_str()).to_owned();
            app_from_identified_bundle(
                display_name,
                bundle_name,
                bundle_id,
                trimmed_bundle_id.as_str(),
                file_stem,
                path,
            )
        },
    }
}

/// Whether some application of a list has the given bundle id.
pub open spec fn has_bundle(apps: Seq<SystemAppView>, bundle_id: Seq<char>) -> bool {
    exists|i: int| 0 <= i < apps.len() && (#[trigger] apps[i]).bundle_id == bundle_id
}

/// Adds an application to a scan result unless one with its bundle id is
/// there already: the first occurrence of a bundle counts.
pub fn push_unique_app(apps: &mut Vec<SystemApp>, app: SystemApp)
    ensures
        app_views(final(apps)@) == (if has_bundle(app_views(old(apps)@), app@.bundle_id) {
            app_views(old(apps)@)
        } else {
            app_views(old(apps)@).push(app@)
        }),
{
    let ghost before = app_views(apps@);
    let mut i: usize = 0;
    while i < apps.len()
        invariant
            i <= apps.len(),
            before == app_views(apps@),
            forall|j: int| 0 <= j < i ==> (#[trigger] before[j]).bundle_id != app@.bundle_id,
        decreases apps.len() - i,
    {
        if text_eq(apps[i].bundle_id.as_str(), app.bundle_id.as_str()) {
            proof {
                assert(before[i as int].bundle_id == app@.bundle_id);
            }
            return;
        }
        i += 1;
    }
    apps.push(app);
    proof {
        assert(app_views(apps@) =~= before.push(app@));
    }
}

/// The text that applications are ordered by: the name in lowercase.
pub open spec fn sort_key(app: SystemAppView) -> Seq<char> {
    lowercased(app.name)
}

/// Whether a list of applications is in the order of their names, without
/// regard to case.
pub open spec fn sorted_by_name(apps: Seq<SystemAppView>) -> bool {
    forall|i: int, j: int|
        0 <= i < j < apps.len() ==> text_le(sort_key(#[trigger] apps[i]), sort_key(#[trigger] apps[j]))
}

/// The applications of a list with the given sort key, in their order.
pub open spec fn with_key(apps: Seq<SystemAppView>, key: Seq<char>) -> Seq<SystemAppView> {
    apps.filter(has_key(key))
}

/// The test that an application has the given sort key.
pub open spec fn has_key(key: Seq<char>) -> spec_fn(SystemAppView) -> bool {
    |app: SystemAppView| sort_key(app) == key
}

/// A list without an application of a key has none with that key.
proof fn lemma_no_app_with_key(apps: Seq<SystemAppView>, key: Seq<char>)
    requires
        forall|j: int| 0 <= j < apps.len() ==> sort_key(#[trigger] apps[j]) != key,
    ensures
        with_key(apps, key) == Seq::<SystemAppView>::empty(),
{
    let found = with_key(apps, key);
    if found.len() > 0 {
        apps.lemma_filter_pred(has_key(key), 0);
        assert(found.contains(found[0]));
        apps.lemma_filter_contains_rev(has_key(key), found[0]);
        let j = choose|j: int| 0 <= j < apps.len() && apps[j] == found[0];
        assert(sort_key(apps[j]) == key);
    }
    assert(found =~= Seq::<SystemAppView>::empty());
}

/// Putting an application into a list, before only applications whose key
/// comes strictly after its own, adds it at the end of the applications of
/// its key and leaves the applications of every other key as they were.
proof fn lemma_insert_keeps_keys_in_order(
    before: Seq<SystemAppView>,
    place: int,
    app: SystemAppView,
    key: Seq<char>,
)
    requires
        0 <= place <= before.len(),
        forall|j: int|
            place <= j < before.len() ==> !text_le(sort_key(#[trigger] before[j]), sort_key(app)),
    ensures
        with_key(before.insert(place, app), key) == with_key(before.push(app), key),
{
    reveal(Seq::filter);
    let test = has_key(key);
    let front = before.take(place);
    let back = before.skip(place);
    assert(before =~= front + back);
    assert(before.insert(place, app) =~= (front + seq![app]) + back);
    assert(before.push(app) =~= (front + back) + seq![app]);
    Seq::filter_distributes_over_add(front, back, test);
    Seq::filter_distributes_over_add(front + seq![app], back, test);
    Seq::filter_distributes_over_add(front, seq![app], test);
    Seq::filter_distributes_over_add(front + back, seq![app], test);
    if sort_key(app) == key {
        lemma_text_le_reflexive(key);
        assert forall|j: int| 0 <= j < back.len() implies sort_key(#[trigger] back[j]) != key by {
            assert(back[j] == before[place + j]);
        }
        lemma_no_app_with_key(back, key);
        assert((front.filter(test) + seq![app].filter(test)) + back.filter(test) =~= (front.filter(
            test,
        ) + back.filter(test)) + seq![app].filter(test));
    } else {
        assert(seq![app][0] == app);
        lemma_no_app_with_key(seq![app], key);
        assert((front.filter(test) + seq![app].filter(test)) + back.filter(test) =~= (front.filter(
            test,
        ) + back.filter(test)) + seq![app].filter(test));
    }
}

/// Two lists with the same applications of a key still have the same of it
/// once an application is added at the end of both.
proof fn lemma_push_keeps_keys(
    one: Seq<SystemAppView>,
    other: Seq<SystemAppView>,
    app: SystemAppView,
    key: Seq<char>,
)
    requires
        with_key(one, key) == with_key(other, key),
    ensures
        with_key(one.push(app), key) == with_key(other.push(app), key),
{
    reveal(Seq::filter);
    assert(one.push(app).drop_last() =~= one);
    assert(other.push(app).drop_last() =~= other);
}

/// Puts the applications in the order of their names, without regard to
/// case. The result holds the same applications, each as often as the list
/// did, and applications whose names differ at most by case keep the order
/// they had.
pub fn sort_apps_by_name(apps: Vec<SystemApp>) -> (sorted: Vec<SystemApp>)
    ensures
        sorted_by_name(app_views(sorted@)),
        app_views(sorted@).to_multiset() == app_views(apps@).to_multiset(),
        sorted@.len() == apps@.len(),
        forall|key: Seq<char>|
            (#[trigger] with_key(app_views(sorted@), key)) == with_key(app_views(apps@), key),
{
    let ghost all = app_views(apps@);
    let mut sorted: Vec<SystemApp> = Vec::new();
    let mut i: usize = 0;
    proof {
        assert(app_views(sorted@) =~= all.take(0));
    }
    while i < apps.len()
        invariant
            i <= apps.len(),
            all == app_views(apps@),
            sorted@.len() == i,
            sorted_by_name(app_views(sorted@)),
            app_views(sorted@).to_multiset() == all.take(i as int).to_multiset(),
            forall|key: Seq<char>|
                (#[trigger] with_key(app_views(sorted@), key)) == with_key(all.take(i as int), key),
        decreases apps.len() - i,
    {
        let app = apps[i].clone();
        let key = text_lowercase(app.name.as_str());
        let ghost before = app_views(sorted@);
        let mut place: usize = sorted.len();
        let mut searching = true;
        while searching && place > 0
            invariant
                place <= sorted.len(),
                before == app_views(sorted@),
                key@ == sort_key(app@),
                forall|j: int| place <= j < before.len() ==> !text_le(sort_key(#[trigger] before[j]), key@),
                !searching ==> place > 0 && text_le(sort_key(before[place - 1]), key@),
            decreases place + (if searching { 1int } else { 0int }),
        {
            let other = text_lowercase(sorted[place - 1].name.as_str());
            proof {
                assert(before[place - 1] == sorted@[place - 1]@);
            }
            if text_precedes(other.as_str(), key.as_str()) {
                searching = false;
            } else {
                place -= 1;
            }
        }
        sorted.insert(place, app);
        proof {
            let after = app_views(sorted@);
            assert(after =~= before.insert(place as int, app@));
            vstd::seq_lib::to_multiset_insert(before, place as int, app@);
            assert(all.take(i + 1) =~= all.take(i as int).push(app@));
            vstd::seq_lib::to_multiset_build(all.take(i as int), app@);
            assert forall|k: Seq<char>|
                (#[trigger] with_key(after, k)) == with_key(all.take(i + 1), k) by {
                lemma_insert_keeps_keys_in_order(before, place as int, app@, k);
                lemma_push_keeps_keys(before, all.take(i as int), app@, k);
            }
            assert forall|a: int, b: int| 0 <= a < b < after.len() implies text_le(
                sort_key(#[trigger] after[a]),
                sort_key(#[trigger] after[b]),
            ) by {
                if b < place {
                    assert(after[a] == before[a] && after[b] == before[b]);
                } else if b == place {
                    assert(after[a] == before[a]);
                    assert(text_le(sort_key(before[place - 1]), key@));
                    if a < place - 1 {
                        assert(text_le(sort_key(before[a]), sort_key(before[place - 1])));
                        lemma_text_le_transitive(
                            sort_key(before[a]),
                            sort_key(before[place - 1]),
                            key@,
                        );
                    }
                } else if a == place {
                    assert(after[b] == before[b - 1]);
                    lemma_text_le_total(sort_key(before[b - 1]), key@);
                } else if a > place {
                    assert(after[a] == before[a - 1] && after[b] == before[b - 1]);
                } else {
                    assert(after[a] == before[a] && after[b] == before[b - 1]);
                }
            }
        }
        i += 1;
    }
    proof {
        assert(all.take(apps.len() as int) =~= all);
    }
    sorted
}

} // verus!
