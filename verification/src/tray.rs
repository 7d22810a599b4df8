//! The system-tray menu model: which entries appear, their identifiers
//! and labels, and how an activated identifier maps back to an event.
//! Building the platform menu object from these entries is presentation
//! glue outside the library.

use vstd::multiset::Multiset;
use vstd::prelude::*;
use vstd::string::StrSliceExecFns;
use vstd::string::StringExecFns;

use crate::profile::ProfileSummary;
use crate::strutil::{
    lemma_lex_le_total, lemma_lex_le_transitive, lex_le, match_at, str_le, str_starts_with,
};

verus! {

/// What the user did in the tray menu.
#[derive(Debug, Clone, PartialEq)]
pub enum TrayEvent {
    OpenWindow,
    SwitchProfile(String),
    Quit,
}

/// One entry of the tray menu: an activatable item or a separator line.
#[derive(Debug, Clone, PartialEq)]
pub enum MenuEntry {
    Item { id: String, label: String },
    Separator,
}

/// The menu identifier of a profile's entry.
pub fn menu_id_for_profile(name: &str) -> (r: String)
    ensures
        r@ == "profile:"@ + name@,
{
    let mut out = String::new();
    out.append("profile:");
    out.append(name);
    out
}

/// The label a profile's entry shows: the name, starred when current,
/// with the e-mail in parentheses when known.
pub open spec fn spec_menu_label(p: ProfileSummary) -> Seq<char> {
    let base = if p.is_current {
        "* "@ + p.name@
    } else {
        p.name@
    };
    match p.email {
        Some(email) => base + " ("@ + email@ + ")"@,
        None => base,
    }
}

/// Formats the label a profile's entry shows.
pub fn menu_label_for_profile(profile: &ProfileSummary) -> (r: String)
    ensures
        r@ == spec_menu_label(*profile),
{
    let mut base = String::new();
    if profile.is_current {
        base.append("* ");
    }
    base.append(profile.name.as_str());
    match &profile.email {
        Some(email) => {
            base.append(" (");
            base.append(email.as_str());
            base.append(")");
            assert(base@ =~= spec_menu_label(*profile));
            base
        },
        None => base,
    }
}

/// The tray menu's ordering of profiles: the current profile first, then
/// by name.
pub open spec fn menu_le(a: ProfileSummary, b: ProfileSummary) -> bool {
    ||| (a.is_current && !b.is_current)
    ||| (a.is_current == b.is_current && lex_le(a.name@, b.name@))
}

/// Whether a list of profiles is in tray-menu order.
pub open spec fn menu_sorted(s: Seq<ProfileSummary>) -> bool {
    forall|i: int, j: int| 0 <= i < j < s.len() ==> #[trigger] menu_le(s[i], s[j])
}

proof fn lemma_menu_le_total(a: ProfileSummary, b: ProfileSummary)
    ensures
        menu_le(a, b) || menu_le(b, a),
{
    lemma_lex_le_total(a.name@, b.name@);
}

proof fn lemma_menu_le_trans(a: ProfileSummary, b: ProfileSummary, c: ProfileSummary)
    requires
        menu_le(a, b),
        menu_le(b, c),
    ensures
        menu_le(a, c),
{
    if a.is_current == b.is_current && b.is_current == c.is_current {
        lemma_lex_le_transitive(a.name@, b.name@, c.name@);
    }
}

fn menu_before(a: &ProfileSummary, b: &ProfileSummary) -> (r: bool)
    ensures
        r == menu_le(*a, *b),
{
    if a.is_current && !b.is_current {
        true
    } else if a.is_current == b.is_current {
        str_le(a.name.as_str(), b.name.as_str())
    } else {
        false
    }
}

fn insert_menu_sorted(v: &mut Vec<ProfileSummary>, x: ProfileSummary)
    requires
        menu_sorted(old(v)@),
    ensures
        menu_sorted(final(v)@),
        final(v)@.to_multiset() == old(v)@.to_multiset().insert(x),
        final(v)@.len() == old(v)@.len() + 1,
{
    let ghost orig = v@;
    let mut idx: usize = 0;
    while idx < v.len() && menu_before(&v[idx], &x)
        invariant
            idx <= v@.len(),
            v@ == orig,
            forall|j: int| 0 <= j < idx ==> menu_le(#[trigger] orig[j], x),
        decreases v@.len() - idx,
    {
        idx += 1;
    }
    proof {
        assert forall|j: int| idx <= j < orig.len() implies menu_le(x, #[trigger] orig[j]) by {
            lemma_menu_le_total(orig[idx as int], x);
            assert(!menu_le(orig[idx as int], x));
            if j > idx {
                assert(menu_le(orig[idx as int], orig[j]));
                lemma_menu_le_trans(x, orig[idx as int], orig[j]);
            }
        }
    }
    v.insert(idx, x);
    proof {
        let r = v@;
        assert forall|i: int, j: int| 0 <= i < j < r.len() implies #[trigger] menu_le(
            r[i],
            r[j],
        ) by {
            if j < idx {
                assert(menu_le(orig[i], orig[j]));
            } else if i > idx {
                assert(menu_le(orig[i - 1], orig[j - 1]));
            } else if i == idx && j > idx {
                assert(menu_le(x, orig[j - 1]));
            } else if i < idx && j == idx {
                assert(menu_le(orig[i], x));
            } else if i < idx && j > idx {
                assert(menu_le(orig[i], orig[j - 1]));
            }
        }
        broadcast use vstd::seq_lib::group_to_multiset_ensures;

        assert(r.remove(idx as int) =~= orig);
        assert(r.remove(idx as int).to_multiset() =~= r.to_multiset().remove(r[idx as int]));
        assert(r.to_multiset().contains(x));
        assert(r.to_multiset() =~= orig.to_multiset().insert(x)) by {
            assert(orig.to_multiset() =~= r.to_multiset().remove(x));
        }
    }
}

/// Whether `e` is the menu item standing for profile `p`.
pub open spec fn entry_is_for(e: MenuEntry, p: ProfileSummary) -> bool {
    e matches MenuEntry::Item { id, label } && id@ == "profile:"@ + p.name@ && label@
        == spec_menu_label(p)
}

/// The shape of a built menu: the fixed "Open Window" item first; when
/// profiles exist, a separator and one item per profile in tray order;
/// a separator and the "Quit" item last.
pub open spec fn menu_entries_shape(
    profiles: Seq<ProfileSummary>,
    sorted: Seq<ProfileSummary>,
    entries: Seq<MenuEntry>,
) -> bool {
    let middle = if profiles.len() == 0 {
        0int
    } else {
        profiles.len() + 1int
    };
    &&& menu_sorted(sorted)
    &&& sorted.to_multiset() == profiles.to_multiset()
    &&& entries.len() == 3 + middle
    &&& (entries[0] matches MenuEntry::Item { id, label } && id@ == "open-window"@ && label@
        == "Open Window"@)
    &&& (profiles.len() > 0 ==> entries[1] == MenuEntry::Separator)
    &&& (forall|k: int|
        0 <= k < sorted.len() ==> entry_is_for(#[trigger] entries[2 + k], sorted[k]))
    &&& entries[entries.len() - 2] == MenuEntry::Separator
    &&& (entries.last() matches MenuEntry::Item { id, label } && id@ == "quit"@ && label@
        == "Quit"@)
}

/// Builds the tray menu entries for a registry snapshot: "Open Window",
/// then one item per profile ordered current-first-then-by-name, framed
/// by separators, then "Quit".
pub fn menu_entries(profiles: &Vec<ProfileSummary>) -> (r: Vec<MenuEntry>)
    ensures
        exists|sorted: Seq<ProfileSummary>|
            #[trigger] menu_entries_shape(profiles@, sorted, r@),
{
    let mut entries: Vec<MenuEntry> = Vec::new();
    entries.push(
        MenuEntry::Item { id: String::from_str("open-window"), label: String::from_str(
            "Open Window",
        ) },
    );
    let mut sorted: Vec<ProfileSummary> = Vec::new();
    if profiles.len() > 0 {
        entries.push(MenuEntry::Separator);
        let mut i: usize = 0;
        proof {
            broadcast use vstd::seq_lib::group_to_multiset_ensures;

            assert(profiles@.subrange(0, 0).to_multiset() =~= Multiset::empty());
        }
        while i < profiles.len()
            invariant
                i <= profiles@.len(),
                menu_sorted(sorted@),
                sorted@.to_multiset() == profiles@.subrange(0, i as int).to_multiset(),
            decreases profiles@.len() - i,
        {
            let ghost pre = profiles@.subrange(0, i as int);
            insert_menu_sorted(&mut sorted, profiles[i].clone());
            proof {
                broadcast use vstd::seq_lib::group_to_multiset_ensures;

                assert(profiles@.subrange(0, i + 1) =~= pre.push(profiles@[i as int]));
                assert(profiles@.subrange(0, i + 1).to_multiset() =~= pre.to_multiset().insert(
                    profiles@[i as int],
                ));
            }
            i += 1;
        }
        proof {
            assert(profiles@.subrange(0, profiles@.len() as int) =~= profiles@);
        }
        let mut k: usize = 0;
        while k < sorted.len()
            invariant
                k <= sorted@.len(),
                entries@.len() == 2 + k,
                entries@[0] matches MenuEntry::Item { id, label } && id@ == "open-window"@
                    && label@ == "Open Window"@,
                entries@[1] == MenuEntry::Separator,
                forall|j: int|
                    0 <= j < k ==> entry_is_for(#[trigger] entries@[2 + j], sorted@[j]),
            decreases sorted@.len() - k,
        {
            let id = menu_id_for_profile(sorted[k].name.as_str());
            let label = menu_label_for_profile(&sorted[k]);
            entries.push(MenuEntry::Item { id, label });
            k += 1;
        }
    }
    entries.push(MenuEntry::Separator);
    entries.push(
        MenuEntry::Item { id: String::from_str("quit"), label: String::from_str("Quit") },
    );
    proof {
        broadcast use vstd::seq_lib::group_to_multiset_ensures;

        if profiles@.len() == 0 {
            assert(sorted@ =~= profiles@);
        } else {
            assert(sorted@.to_multiset() == profiles@.to_multiset());
            assert(sorted@.to_multiset().len() == profiles@.to_multiset().len());
            assert(sorted@.len() == profiles@.len());
        }
        assert(entries@.len() == 3 + (if profiles@.len() == 0 { 0int } else { profiles@.len() + 1int }));
        assert(entries@[0] matches MenuEntry::Item { id, label } && id@ == "open-window"@ && label@ == "Open Window"@);
        assert(profiles@.len() > 0 ==> entries@[1] == MenuEntry::Separator);
        assert(forall|k: int| 0 <= k < sorted@.len() ==> entry_is_for(#[trigger] entries@[2 + k], sorted@[k]));
        assert(entries@[entries@.len() - 2] == MenuEntry::Separator);
        assert(entries@.last() matches MenuEntry::Item { id, label } && id@ == "quit"@ && label@ == "Quit"@);
        assert(menu_entries_shape(profiles@, sorted@, entries@));
    }
    entries
}

/// Maps an activated menu identifier back to the event it stands for:
/// the fixed identifiers to their events, and a non-empty
/// `profile:`-prefixed identifier to switching to that profile.
pub fn tray_event_from_menu_id(id: &str) -> (r: Option<TrayEvent>)
    ensures
        id@ == "open-window"@ ==> r == Some(TrayEvent::OpenWindow),
        id@ == "quit"@ ==> r == Some(TrayEvent::Quit),
        (match_at(id@, "profile:"@, 0) && id@.len() > "profile:"@.len() && id@ != "open-window"@
            && id@ != "quit"@) ==> (r matches Some(e) && e matches TrayEvent::SwitchProfile(name)
            && name@ == id@.skip("profile:"@.len() as int)),
        (!match_at(id@, "profile:"@, 0) && id@ != "open-window"@ && id@ != "quit"@) ==> r is None,
{
    proof {
        reveal_strlit("open-window");
        reveal_strlit("quit");
        reveal_strlit("profile:");
        assert("open-window"@.len() == 11);
        assert("quit"@.len() == 4);
        assert("quit"@ != "open-window"@);
    }
    if crate::strutil::str_eq(id, "open-window") {
        return Some(TrayEvent::OpenWindow);
    }
    if crate::strutil::str_eq(id, "quit") {
        return Some(TrayEvent::Quit);
    }
    if str_starts_with(id, "profile:") {
        let plen = "profile:".unicode_len();
        let ilen = id.unicode_len();
        if ilen > plen {
            let name = id.substring_char(plen, ilen);
            let mut owned = String::new();
            owned.append(name);
            return Some(TrayEvent::SwitchProfile(owned));
        }
    }
    None
}

} // verus!
