use vstd::prelude::*;

use crate::config::{first_value, Config};
use crate::error::KeysetError;
use crate::profile::{strings_view, Keyboard, KeyboardView};

verus! {

/// The first identifier of `ids`, in order, that the USB table knows, with
/// the profile name it maps to.
pub open spec fn first_match(usb: Seq<(Seq<char>, Seq<char>)>, ids: Seq<Seq<char>>) -> Option<
    (Seq<char>, Seq<char>),
>
    decreases ids.len(),
{
    if ids.len() == 0 {
        None
    } else {
        match first_value(usb, ids[0]) {
            Some(name) => Some((ids[0], name)),
            None => first_match(usb, ids.drop_first()),
        }
    }
}

/// What resolving a sequence of attached identifiers comes to.
pub enum Outcome {
    /// No attached identifier is configured.
    NoSelection,
    /// The profile of the first configured identifier.
    Selected(KeyboardView),
    /// The first configured identifier names a profile that does not exist.
    Missing(Seq<char>),
}

/// Resolution of `ids` against the two tables.
pub open spec fn resolution(
    kb: Seq<(Seq<char>, KeyboardView)>,
    usb: Seq<(Seq<char>, Seq<char>)>,
    ids: Seq<Seq<char>>,
) -> Outcome {
    match first_match(usb, ids) {
        None => Outcome::NoSelection,
        Some(hit) => match first_value(kb, hit.1) {
            Some(k) => Outcome::Selected(k),
            None => Outcome::Missing(hit.1),
        },
    }
}

/// Every identifier of `ids` that the USB table knows, paired with its
/// profile name, in the order of `ids`.
pub open spec fn attached_pairs(usb: Seq<(Seq<char>, Seq<char>)>, ids: Seq<Seq<char>>) -> Seq<
    (Seq<char>, Seq<char>),
>
    decreases ids.len(),
{
    if ids.len() == 0 {
        seq![]
    } else {
        let rest = attached_pairs(usb, ids.drop_last());
        match first_value(usb, ids.last()) {
            Some(name) => rest.push((ids.last(), name)),
            None => rest,
        }
    }
}

/// The views of a sequence of string pairs.
pub open spec fn pairs_view(s: Seq<(String, String)>) -> Seq<(Seq<char>, Seq<char>)> {
    s.map_values(|e: (String, String)| (e.0@, e.1@))
}

/// An identifier whose profile name has no keyboard entry resolves to that
/// missing name, never to a selection.
pub proof fn lemma_unknown_name_is_missing(
    kb: Seq<(Seq<char>, KeyboardView)>,
    usb: Seq<(Seq<char>, Seq<char>)>,
    id: Seq<char>,
    name: Seq<char>,
)
    requires
        first_value(usb, id) == Some(name),
        first_value(kb, name) is None,
    ensures
        resolution(kb, usb, seq![id]) == Outcome::Missing(name),
{
    assert(seq![id][0] == id);
}

/// The match found is the first configured identifier in enumeration order:
/// every identifier before it is unconfigured.
pub proof fn lemma_first_match_is_first(
    usb: Seq<(Seq<char>, Seq<char>)>,
    ids: Seq<Seq<char>>,
    id: Seq<char>,
    name: Seq<char>,
)
    requires
        first_match(usb, ids) == Some((id, name)),
    ensures
        exists|k: int|
            0 <= k < ids.len() && ids[k] == id && first_value(usb, ids[k]) == Some(name) && forall|
                j: int,
            | 0 <= j < k ==> (#[trigger] first_value(usb, ids[j])) is None,
    decreases ids.len(),
{
    let hit = (id, name);
    if first_value(usb, ids[0]) is Some {
        assert(0 <= 0 < ids.len() && ids[0] == hit.0 && first_value(usb, ids[0]) == Some(hit.1));
    } else {
        let rest = ids.drop_first();
        lemma_first_match_is_first(usb, rest, id, name);
        let k = choose|k: int|
            0 <= k < rest.len() && rest[k] == hit.0 && first_value(usb, rest[k]) == Some(hit.1)
                && forall|j: int| 0 <= j < k ==> (#[trigger] first_value(usb, rest[j])) is None;
        assert forall|j: int| 0 <= j < k + 1 implies (#[trigger] first_value(usb, ids[j])) is None by {
            if j > 0 {
                assert(ids[j] == rest[j - 1]);
            }
        }
        assert(ids[k + 1] == rest[k]);
    }
}

/// Once a configured identifier has been seen, the identifiers after it do
/// not change the resolution.
pub proof fn lemma_later_ids_ignored(
    kb: Seq<(Seq<char>, KeyboardView)>,
    usb: Seq<(Seq<char>, Seq<char>)>,
    ids: Seq<Seq<char>>,
    later: Seq<Seq<char>>,
)
    requires
        first_match(usb, ids) is Some,
    ensures
        first_match(usb, ids + later) == first_match(usb, ids),
        resolution(kb, usb, ids + later) == resolution(kb, usb, ids),
    decreases ids.len(),
{
    let all = ids + later;
    assert(all[0] == ids[0]);
    if first_value(usb, ids[0]) is None {
        assert(all.drop_first() =~= ids.drop_first() + later);
        lemma_later_ids_ignored(kb, usb, ids.drop_first(), later);
    }
}

impl Config {
    /// The profile named `name`; a name with no profile is refused.
    pub fn resolve_forced(&self, name: &String) -> (r: Result<&Keyboard, KeysetError>)
        ensures
            match first_value(self.keyboard_entries(), name@) {
                Some(k) => r is Ok && r->Ok_0@ == k,
                None => r is Err && r->Err_0 is UnknownProfile && r->Err_0->UnknownProfile_0@
                    == name@,
            },
    {
        match self.kb_lookup(name) {
            Some(k) => Ok(k),
            None => Err(KeysetError::UnknownProfile(name.clone())),
        }
    }

    /// Selects the profile of the first identifier in `ids` that the USB
    /// table knows. No configured identifier is no selection; a configured
    /// identifier whose profile name has no keyboard entry is an error.
    pub fn resolve(&self, ids: &Vec<String>) -> (r: Result<Option<&Keyboard>, KeysetError>)
        ensures
            match resolution(self.keyboard_entries(), self.usb_entries(), strings_view(ids@)) {
                Outcome::NoSelection => r is Ok && r->Ok_0 is None,
                Outcome::Selected(k) => r is Ok && r->Ok_0 is Some && r->Ok_0->0@ == k,
                Outcome::Missing(name) => r is Err && r->Err_0 is MissingProfile
                    && r->Err_0->MissingProfile_0@ == name,
            },
    {
        let ghost idv = strings_view(ids@);
        let n: usize = ids.len();
        let mut i: usize = 0;
        assert(idv.subrange(0, n as int) =~= idv);
        while i < n
            invariant
                n == ids.len(),
                idv == strings_view(ids@),
                i <= n,
                first_match(self.usb_entries(), idv) == first_match(
                    self.usb_entries(),
                    idv.subrange(i as int, n as int),
                ),
            decreases n - i,
        {
            assert(idv.subrange(i as int, n as int).drop_first() =~= idv.subrange(i + 1, n as int));
            match self.usb_lookup(&ids[i]) {
                Some(name) => {
                    return match self.kb_lookup(name) {
                        Some(k) => Ok(Some(k)),
                        None => Err(KeysetError::MissingProfile(name.clone())),
                    };
                },
                None => {},
            }
            i = i + 1;
        }
        Ok(None)
    }

    /// Every identifier in `ids` that the USB table knows, with its profile
    /// name, in the order of `ids`. The keyboard table is not consulted.
    pub fn attached(&self, ids: &Vec<String>) -> (r: Vec<(String, String)>)
        ensures
            pairs_view(r@) == attached_pairs(self.usb_entries(), strings_view(ids@)),
    {
        let ghost idv = strings_view(ids@);
        let n: usize = ids.len();
        let mut r: Vec<(String, String)> = Vec::new();
        let mut i: usize = 0;
        while i < n
            invariant
                n == ids.len(),
                idv == strings_view(ids@),
                i <= n,
                pairs_view(r@) == attached_pairs(self.usb_entries(), idv.take(i as int)),
            decreases n - i,
        {
            assert(idv.take(i as int + 1).drop_last() =~= idv.take(i as int));
            match self.usb_lookup(&ids[i]) {
                Some(name) => {
                    r.push((ids[i].clone(), name.clone()));
                    assert(pairs_view(r@) =~= attached_pairs(self.usb_entries(), idv.take(i as int)).push(
                        (idv[i as int], name@),
                    ));
                },
                None => {},
            }
            i = i + 1;
        }
        assert(idv.take(n as int) =~= idv);
        r
    }
}

} // verus!
