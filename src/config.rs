use vstd::prelude::*;

use crate::error::KeysetError;
use crate::profile::{strings_view, Keyboard, KeyboardView};

verus! {

/// The value stored under the first entry whose key is `key`.
pub open spec fn first_value<V>(entries: Seq<(Seq<char>, V)>, key: Seq<char>) -> Option<V>
    decreases entries.len(),
{
    if entries.len() == 0 {
        None
    } else if entries[0].0 == key {
        Some(entries[0].1)
    } else {
        first_value(entries.drop_first(), key)
    }
}

/// The keys of a table, in order.
pub open spec fn keys_of<V>(entries: Seq<(String, V)>) -> Seq<Seq<char>> {
    entries.map_values(|e: (String, V)| e.0@)
}

/// No key occurs twice.
pub open spec fn keys_unique(keys: Seq<Seq<char>>) -> bool {
    forall|i: int, j: int| 0 <= i < keys.len() && 0 <= j < keys.len() && i != j ==> keys[i] != keys[j]
}

/// The key `key` stands at two different positions.
pub open spec fn key_repeated(keys: Seq<Seq<char>>, key: Seq<char>) -> bool {
    exists|i: int, j: int|
        0 <= i < keys.len() && 0 <= j < keys.len() && i != j && keys[i] == key && keys[j] == key
}

/// Every profile names a layout and a variant.
pub open spec fn profiles_complete(kb: Seq<(Seq<char>, KeyboardView)>) -> bool {
    forall|i: int| 0 <= i < kb.len() ==> (#[trigger] kb[i]).1.mapping.len() > 0 && kb[i].1.variant.len() > 0
}

/// The profile named `name` lacks a layout or a variant.
pub open spec fn profile_incomplete(kb: Seq<(Seq<char>, KeyboardView)>, name: Seq<char>) -> bool {
    exists|i: int|
        0 <= i < kb.len() && (#[trigger] kb[i]).0 == name && (kb[i].1.mapping.len() == 0
            || kb[i].1.variant.len() == 0)
}

/// The loaded configuration: profile name to profile, and USB identifier to
/// profile name. Each table keeps the order it was given in.
pub struct Config {
    pub(crate) keyboards: Vec<(String, Keyboard)>,
    pub(crate) usbids: Vec<(String, String)>,
}

impl Config {
    /// The keyboard table, as name and profile view.
    pub closed spec fn keyboard_entries(&self) -> Seq<(Seq<char>, KeyboardView)> {
        self.keyboards@.map_values(|e: (String, Keyboard)| (e.0@, e.1@))
    }

    /// The USB table, as identifier and profile name.
    pub closed spec fn usb_entries(&self) -> Seq<(Seq<char>, Seq<char>)> {
        self.usbids@.map_values(|e: (String, String)| (e.0@, e.1@))
    }

    /// Both tables have unique keys, and every profile is complete.
    pub open spec fn wf(&self) -> bool {
        profiles_complete(self.keyboard_entries()) && keys_unique(self.keyboard_entries().map_values(|e: (Seq<char>, KeyboardView)| e.0))
            && keys_unique(self.usb_entries().map_values(|e: (Seq<char>, Seq<char>)| e.0))
    }

    /// Builds a configuration from its two tables. A key that occurs twice in
    /// either table is refused, and so is a profile without a layout or a
    /// variant.
    pub fn new(keyboards: Vec<(String, Keyboard)>, usbids: Vec<(String, String)>) -> (r: Result<
        Config,
        KeysetError,
    >)
        ensures
            (keys_unique(keys_of(keyboards@)) && keys_unique(keys_of(usbids@)) && profiles_complete(
                keyboards@.map_values(|e: (String, Keyboard)| (e.0@, e.1@)),
            )) <==> r is Ok,
            r is Ok ==> r->Ok_0.wf()
                && r->Ok_0.keyboard_entries() == keyboards@.map_values(|e: (String, Keyboard)| (e.0@, e.1@))
                && r->Ok_0.usb_entries() == usbids@.map_values(|e: (String, String)| (e.0@, e.1@)),
            r is Err ==> (r->Err_0 is DuplicateKey && (key_repeated(
                keys_of(keyboards@),
                r->Err_0->DuplicateKey_0@,
            ) || key_repeated(keys_of(usbids@), r->Err_0->DuplicateKey_0@))) || (r->Err_0 is IncompleteProfile
                && profile_incomplete(
                keyboards@.map_values(|e: (String, Keyboard)| (e.0@, e.1@)),
                r->Err_0->IncompleteProfile_0@,
            )),
    {
        let cfg = Config { keyboards, usbids };
        match duplicate_key(&cfg.keyboards) {
            Some(k) => {
                return Err(KeysetError::DuplicateKey(k));
            },
            None => {},
        }
        match duplicate_key(&cfg.usbids) {
            Some(k) => {
                return Err(KeysetError::DuplicateKey(k));
            },
            None => {},
        }
        match incomplete_profile(&cfg.keyboards) {
            Some(name) => Err(KeysetError::IncompleteProfile(name)),
            None => {
                assert(cfg.keyboard_entries().map_values(|e: (Seq<char>, KeyboardView)| e.0)
                    =~= keys_of(cfg.keyboards@));
                assert(cfg.usb_entries().map_values(|e: (Seq<char>, Seq<char>)| e.0)
                    =~= keys_of(cfg.usbids@));
                Ok(cfg)
            },
        }
    }

    /// The names of all configured profiles, in table order.
    pub fn keyboard_names(&self) -> (r: Vec<String>)
        ensures
            strings_view(r@) == self.keyboard_entries().map_values(
                |e: (Seq<char>, KeyboardView)| e.0,
            ),
    {
        let n: usize = self.keyboards.len();
        let mut r: Vec<String> = Vec::new();
        let mut i: usize = 0;
        while i < n
            invariant
                n == self.keyboards.len(),
                i <= n,
                strings_view(r@) == keys_of(self.keyboards@).take(i as int),
            decreases n - i,
        {
            r.push(self.keyboards[i].0.clone());
            assert(keys_of(self.keyboards@).take(i as int + 1) =~= keys_of(self.keyboards@).take(
                i as int,
            ).push(self.keyboards@[i as int].0@));
            assert(strings_view(r@) =~= keys_of(self.keyboards@).take(i as int + 1));
            i = i + 1;
        }
        assert(keys_of(self.keyboards@).take(n as int) =~= self.keyboard_entries().map_values(
            |e: (Seq<char>, KeyboardView)| e.0,
        ));
        r
    }

    /// The profile named `name`, if any.
    pub(crate) fn kb_lookup(&self, name: &String) -> (r: Option<&Keyboard>)
        ensures
            match first_value(self.keyboard_entries(), name@) {
                Some(k) => r is Some && r->0@ == k,
                None => r is None,
            },
    {
        let found = find_key(&self.keyboards, name);
        proof {
            assert(keys_of(self.keyboards@) =~= self.keyboard_entries().map_values(
                |e: (Seq<char>, KeyboardView)| e.0,
            ));
            lemma_first_value_at(self.keyboard_entries(), name@, found);
        }
        match found {
            Some(i) => Some(&self.keyboards[i].1),
            None => None,
        }
    }

    /// The profile name the USB table gives `id`, if any.
    pub(crate) fn usb_lookup(&self, id: &String) -> (r: Option<&String>)
        ensures
            match first_value(self.usb_entries(), id@) {
                Some(n) => r is Some && r->0@ == n,
                None => r is None,
            },
    {
        let found = find_key(&self.usbids, id);
        proof {
            assert(keys_of(self.usbids@) =~= self.usb_entries().map_values(
                |e: (Seq<char>, Seq<char>)| e.0,
            ));
            lemma_first_value_at(self.usb_entries(), id@, found);
        }
        match found {
            Some(i) => Some(&self.usbids[i].1),
            None => None,
        }
    }
}

/// The name of a profile without a layout or a variant, if there is one.
fn incomplete_profile(kb: &Vec<(String, Keyboard)>) -> (r: Option<String>)
    ensures
        r is None <==> profiles_complete(kb@.map_values(|e: (String, Keyboard)| (e.0@, e.1@))),
        r is Some ==> profile_incomplete(kb@.map_values(|e: (String, Keyboard)| (e.0@, e.1@)), r->0@),
{
    let ghost es = kb@.map_values(|e: (String, Keyboard)| (e.0@, e.1@));
    let n: usize = kb.len();
    let mut i: usize = 0;
    while i < n
        invariant
            n == kb.len(),
            es == kb@.map_values(|e: (String, Keyboard)| (e.0@, e.1@)),
            i <= n,
            forall|j: int| 0 <= j < i ==> (#[trigger] es[j]).1.mapping.len() > 0 && es[j].1.variant.len() > 0,
        decreases n - i,
    {
        let k = &kb[i].1;
        if k.mapping.as_str().is_empty() || k.variant.as_str().is_empty() {
            assert(es[i as int].0 == kb@[i as int].0@);
            return Some(kb[i].0.clone());
        }
        i = i + 1;
    }
    None
}

/// A key that occurs twice in `entries`, if there is one.
fn duplicate_key<V>(entries: &Vec<(String, V)>) -> (r: Option<String>)
    ensures
        r is None <==> keys_unique(keys_of(entries@)),
        r is Some ==> key_repeated(keys_of(entries@), r->0@),
{
    let ghost es = keys_of(entries@);
    let n: usize = entries.len();
    let mut i: usize = 0;
    while i < n
        invariant
            n == entries.len(),
            es == keys_of(entries@),
            i <= n,
            forall|a: int, b: int| 0 <= a < i && 0 <= b < n && a != b ==> es[a] != es[b],
        decreases n - i,
    {
        let mut j: usize = 0;
        while j < n
            invariant
                n == entries.len(),
                es == keys_of(entries@),
                i < n,
                j <= n,
                forall|a: int, b: int| 0 <= a < i && 0 <= b < n && a != b ==> es[a] != es[b],
                forall|b: int| 0 <= b < j && b != i ==> es[i as int] != es[b],
            decreases n - j,
        {
            if j != i && entries[i].0 == entries[j].0 {
                assert(es[i as int] == es[j as int]);
                return Some(entries[i].0.clone());
            }
            j = j + 1;
        }
        proof {
            assert forall|a: int, b: int| 0 <= a < i + 1 && 0 <= b < n && a != b implies es[a]
                != es[b] by {
                if a == i {
                } else {
                }
            }
        }
        i = i + 1;
    }
    None
}

/// Where the key `key` first stands in `keys`, if anywhere.
pub open spec fn first_position(keys: Seq<Seq<char>>, key: Seq<char>, r: Option<usize>) -> bool {
    match r {
        Some(i) => i < keys.len() && keys[i as int] == key && forall|j: int| 0 <= j < i ==> keys[j] != key,
        None => forall|j: int| 0 <= j < keys.len() ==> keys[j] != key,
    }
}

/// Finding the first position of a key settles the first value under it.
pub proof fn lemma_first_value_at<V>(entries: Seq<(Seq<char>, V)>, key: Seq<char>, r: Option<usize>)
    requires
        first_position(entries.map_values(|e: (Seq<char>, V)| e.0), key, r),
    ensures
        match r {
            Some(i) => first_value(entries, key) == Some(entries[i as int].1),
            None => first_value(entries, key) is None,
        },
    decreases entries.len(),
{
    let keys = entries.map_values(|e: (Seq<char>, V)| e.0);
    if entries.len() > 0 {
        let rest = entries.drop_first();
        let rkeys = rest.map_values(|e: (Seq<char>, V)| e.0);
        assert(rkeys =~= keys.drop_first());
        match r {
            Some(i) => {
                assert(keys[i as int] == key);
                if i > 0 {
                    assert(keys[0] != key);
                    lemma_first_value_at(rest, key, Some((i - 1) as usize));
                }
            },
            None => {
                assert(keys[0] != key);
                lemma_first_value_at(rest, key, None);
            },
        }
    }
}

/// The position of the first entry whose key is `key`.
pub(crate) fn find_key<V>(entries: &Vec<(String, V)>, key: &String) -> (r: Option<usize>)
    ensures
        first_position(keys_of(entries@), key@, r),
{
    let n: usize = entries.len();
    let mut i: usize = 0;
    while i < n
        invariant
            n == entries.len(),
            i <= n,
            forall|j: int| 0 <= j < i ==> keys_of(entries@)[j] != key@,
        decreases n - i,
    {
        if entries[i].0 == *key {
            return Some(i);
        }
        i = i + 1;
    }
    None
}

} // verus!
