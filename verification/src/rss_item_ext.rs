//! The feed extension that tells the syndication where an item wants to be
//! published, and an optional content warning.

use vstd::prelude::*;

use crate::rss::Item;
use crate::social::Network;

verus! {

/// One element of a feed extension: a name, an optional value, and named
/// lists of child elements.
#[derive(Debug, PartialEq)]
pub struct Extension {
    pub name: String,
    pub value: Option<String>,
    pub children: Vec<(String, Vec<Extension>)>,
}

/// The extensions of a feed item: namespaces, each holding named lists of
/// extension elements. The association lists stand for the key-ordered maps
/// a feed parser produces, whose keys are unique (`assoc_unique_keys`);
/// lookups take the first matching entry, so they agree with any map
/// reading on such lists and stay deterministic on all others.
pub type ExtensionMap = Vec<(String, Vec<(String, Vec<Extension>)>)>;

/// The extension data the syndication reads from one item.
#[derive(Debug, PartialEq)]
pub struct IwtRssExtension {
    /// The target networks where the item should be syndicated to.
    pub target_networks: Vec<IwtRssTargetNetwork>,
    /// An optional content warning, used only by Mastodon.
    pub content_warning: Option<String>,
}

/// One requested target network.
#[derive(Debug, PartialEq)]
pub struct IwtRssTargetNetwork {
    pub network: Network,
}

/// The value behind the first entry of an association list that carries the
/// given key.
pub open spec fn assoc_find<V>(entries: Seq<(String, V)>, key: Seq<char>) -> Option<V>
    decreases entries.len(),
{
    if entries.len() == 0 {
        None
    } else if entries[0].0@ == key {
        Some(entries[0].1)
    } else {
        assoc_find(entries.skip(1), key)
    }
}

/// No two entries of the association list share a key: the invariant the
/// key-ordered maps of a feed parser guarantee.
pub open spec fn assoc_unique_keys<V>(entries: Seq<(String, V)>) -> bool {
    forall|i: int, j: int| 0 <= i < j < entries.len()
        ==> (#[trigger] entries[i]).0@ != (#[trigger] entries[j]).0@
}

/// On a list with unique keys, the lookup answers with any entry that
/// carries the key: first-match and map reading agree.
pub proof fn lemma_assoc_find_unique<V>(entries: Seq<(String, V)>, key: Seq<char>, i: int)
    requires
        assoc_unique_keys(entries),
        0 <= i < entries.len(),
        entries[i].0@ == key,
    ensures
        assoc_find(entries, key) == Some(entries[i].1),
    decreases i,
{
    if i == 0 {
    } else {
        assert(entries[0].0@ != key);
        assert(forall|a: int, b: int| 0 <= a < b < entries.skip(1).len()
            ==> (#[trigger] entries.skip(1)[a]).0@ != (#[trigger] entries.skip(1)[b]).0@);
        assert(entries.skip(1)[i - 1] == entries[i]);
        lemma_assoc_find_unique(entries.skip(1), key, i - 1);
    }
}

proof fn lemma_assoc_find_skip<V>(entries: Seq<(String, V)>, key: Seq<char>, i: int)
    requires
        0 <= i <= entries.len(),
        forall|j: int| 0 <= j < i ==> #[trigger] entries[j].0@ != key,
    ensures
        assoc_find(entries, key) == assoc_find(entries.skip(i), key),
    decreases i,
{
    if i > 0 {
        assert(entries.skip(0) =~= entries);
        lemma_assoc_find_skip(entries.skip(1), key, i - 1);
        assert(entries.skip(1).skip(i - 1) =~= entries.skip(i));
    } else {
        assert(entries.skip(0) =~= entries);
    }
}

/// Compares two string slices character by character.
pub(crate) fn str_eq(a: &str, b: &str) -> (r: bool)
    ensures
        r == (a@ == b@),
{
    let a_len = a.unicode_len();
    let b_len = b.unicode_len();
    if a_len != b_len {
        return false;
    }
    let mut i: usize = 0;
    while i < a_len
        invariant
            a_len == a@.len(),
            b_len == b@.len(),
            a_len == b_len,
            0 <= i <= a_len,
            forall|j: int| 0 <= j < i ==> a@[j] == b@[j],
        decreases a_len - i,
    {
        if a.get_char(i) != b.get_char(i) {
            return false;
        }
        i += 1;
    }
    proof {
        assert(a@ =~= b@);
    }
    true
}

/// Looks a key up in an association list; the first matching entry wins.
fn assoc_get<'a, V>(entries: &'a Vec<(String, V)>, key: &str) -> (r: Option<&'a V>)
    ensures
        match r {
            Some(v) => assoc_find(entries@, key@) == Some(*v),
            None => assoc_find(entries@, key@) is None,
        },
{
    let ghost e = entries@;
    let mut i: usize = 0;
    while i < entries.len()
        invariant
            e == entries@,
            0 <= i <= e.len(),
            forall|j: int| 0 <= j < i ==> #[trigger] e[j].0@ != key@,
        decreases e.len() - i,
    {
        if str_eq(entries[i].0.as_str(), key) {
            proof {
                lemma_assoc_find_skip(e, key@, i as int);
                assert(e.skip(i as int)[0] == e[i as int]);
                reveal_with_fuel(assoc_find, 2);
            }
            return Some(&entries[i].1);
        }
        i += 1;
    }
    proof {
        lemma_assoc_find_skip(e, key@, e.len() as int);
        assert(e.skip(e.len() as int) =~= Seq::<(String, V)>::empty());
    }
    None
}

/// The children of an extension element under the given key; empty when the
/// key is absent.
pub open spec fn spec_get_children(ext: Extension, key: Seq<char>) -> Seq<Extension> {
    match assoc_find(ext.children@, key) {
        Some(v) => v@,
        None => Seq::empty(),
    }
}

/// The first child of an extension element under the given key.
pub open spec fn spec_get_key(ext: Extension, key: Seq<char>) -> Option<Extension> {
    if spec_get_children(ext, key).len() > 0 {
        Some(spec_get_children(ext, key)[0])
    } else {
        None
    }
}

/// The value of the first child of an extension element under the given key.
pub open spec fn spec_get_value(ext: Extension, key: Seq<char>) -> Option<Seq<char>> {
    match spec_get_key(ext, key) {
        Some(e) => match e.value {
            Some(s) => Some(s@),
            None => None,
        },
        None => None,
    }
}

/// All children of `ext` under `key`, in order.
pub fn get_children<'a>(ext: &'a Extension, key: &str) -> (r: Vec<&'a Extension>)
    ensures
        r@.len() == spec_get_children(*ext, key@).len(),
        forall|i: int| 0 <= i < r@.len()
            ==> *#[trigger] r@[i] == spec_get_children(*ext, key@)[i],
{
    match assoc_get(&ext.children, key) {
        None => Vec::new(),
        Some(children) => {
            let mut out: Vec<&'a Extension> = Vec::new();
            let mut i: usize = 0;
            while i < children.len()
                invariant
                    out@.len() == i,
                    0 <= i <= children@.len(),
                    spec_get_children(*ext, key@) == children@,
                    forall|j: int| 0 <= j < i ==> *#[trigger] out@[j] == children@[j],
                decreases children@.len() - i,
            {
                out.push(&children[i]);
                i += 1;
            }
            out
        },
    }
}

/// The first child of `ext` under `key`.
pub fn get_key<'a>(ext: &'a Extension, key: &str) -> (r: Option<&'a Extension>)
    ensures
        match r {
            Some(e) => spec_get_key(*ext, key@) == Some(*e),
            None => spec_get_key(*ext, key@) is None,
        },
{
    match assoc_get(&ext.children, key) {
        None => None,
        Some(children) => {
            if children.len() > 0 {
                Some(&children[0])
            } else {
                None
            }
        },
    }
}

/// The value of the first child of `ext` under `key`.
pub fn get_value<'a>(ext: &'a Extension, key: &str) -> (r: Option<&'a str>)
    ensures
        match r {
            Some(s) => spec_get_value(*ext, key@) == Some(s@),
            None => spec_get_value(*ext, key@) is None,
        },
{
    match get_key(ext, key) {
        None => None,
        Some(e) => match &e.value {
            Some(s) => Some(s.as_str()),
            None => None,
        },
    }
}

/// The network a target-network name stands for.
pub open spec fn spec_network_of(name: Seq<char>) -> Option<Network> {
    if name == "twitter"@ {
        Some(Network::Twitter)
    } else if name == "mastodon"@ {
        Some(Network::Mastodon)
    } else {
        None
    }
}

/// The `extension` entries under the item's `iwt` namespace.
pub open spec fn spec_iwt_extension_entry(item: Item) -> Option<Vec<Extension>> {
    match assoc_find(item.extensions@, "iwt"@) {
        Some(m) => assoc_find(m@, "extension"@),
        None => None,
    }
}

/// The target-network name written in one `targetNetwork` child.
pub open spec fn spec_target_network_name(c: Extension) -> Option<Seq<char>> {
    match spec_get_key(c, "targetNetworkName"@) {
        Some(e) => match e.value {
            Some(s) => Some(s@),
            None => None,
        },
        None => None,
    }
}

/// The extension data is well formed: the `extension` entry, where present,
/// is not empty, and every requested target network names a known network.
pub open spec fn iwt_well_formed(item: Item) -> bool {
    match spec_iwt_extension_entry(item) {
        Some(v) => v@.len() > 0 && {
            let tns = spec_get_children(v@[0], "targetNetwork"@);
            forall|i: int| 0 <= i < tns.len() ==> {
                &&& #[trigger] spec_target_network_name(tns[i]) is Some
                &&& spec_network_of(spec_target_network_name(tns[i])->Some_0) is Some
            }
        },
        None => true,
    }
}

/// Decides whether the item's extension data is well formed, so that a
/// caller can establish `get_iwt_extension`'s precondition before asking.
pub fn has_well_formed_iwt_extension(item: &Item) -> (r: bool)
    ensures
        r == iwt_well_formed(*item),
{
    let root = match assoc_get(&item.extensions, "iwt") {
        None => {
            return true;
        },
        Some(m) => m,
    };
    let entry = match assoc_get(root, "extension") {
        None => {
            return true;
        },
        Some(v) => v,
    };
    if entry.len() == 0 {
        return false;
    }
    let iwt_extension = &entry[0];
    let ghost tns = spec_get_children(*iwt_extension, "targetNetwork"@);
    let children = get_children(iwt_extension, "targetNetwork");
    let mut i: usize = 0;
    while i < children.len()
        invariant
            spec_iwt_extension_entry(*item) matches Some(v) && v@.len() > 0
                && tns == spec_get_children(v@[0], "targetNetwork"@),
            children@.len() == tns.len(),
            forall|j: int| 0 <= j < tns.len() ==> *#[trigger] children@[j] == tns[j],
            0 <= i <= tns.len(),
            forall|j: int| 0 <= j < i ==> {
                &&& #[trigger] spec_target_network_name(tns[j]) is Some
                &&& spec_network_of(spec_target_network_name(tns[j])->Some_0) is Some
            },
        decreases children@.len() - i,
    {
        let target_network = children[i];
        proof {
            assert(*children@[i as int] == tns[i as int]);
        }
        let names = get_children(target_network, "targetNetworkName");
        if names.len() == 0 {
            proof {
                assert(spec_get_key(tns[i as int], "targetNetworkName"@) is None);
                assert(spec_target_network_name(tns[i as int]) is None);
            }
            return false;
        }
        proof {
            assert(spec_get_key(tns[i as int], "targetNetworkName"@)
                == Some(spec_get_children(tns[i as int], "targetNetworkName"@)[0]));
        }
        match &names[0].value {
            None => {
                return false;
            },
            Some(name) => {
                if !(str_eq(name.as_str(), "twitter") || str_eq(name.as_str(), "mastodon")) {
                    proof {
                        assert(spec_network_of(
                            spec_target_network_name(tns[i as int])->Some_0,
                        ) is None);
                    }
                    return false;
                }
            },
        }
        i += 1;
    }
    true
}

/// Reading the syndication extension off a feed item.
pub trait RssItemExt: Sized {
    /// Whether the extension data of this item is well formed.
    spec fn iwt_well_formed_spec(&self) -> bool;

    /// The `extension` entries under the item's `iwt` namespace.
    spec fn iwt_entry(&self) -> Option<Vec<Extension>>;

    /// Reads the item's `iwt` extension: the requested target networks and
    /// the optional content warning.
    fn get_iwt_extension(&self) -> (r: Option<IwtRssExtension>)
        requires
            self.iwt_well_formed_spec(),
        ensures
            match r {
                None => self.iwt_entry() is None,
                Some(ext) => self.iwt_entry() matches Some(v) && {
                    let tns = spec_get_children(v@[0], "targetNetwork"@);
                    &&& ext.target_networks@.len() == tns.len()
                    &&& forall|i: int| 0 <= i < tns.len()
                        ==> #[trigger] ext.target_networks@[i].network
                            == spec_network_of(spec_target_network_name(tns[i])->Some_0)->Some_0
                    &&& (ext.content_warning is Some <==> spec_get_value(
                        v@[0],
                        "contentWarning"@,
                    ) is Some)
                    &&& (ext.content_warning matches Some(w)
                        ==> spec_get_value(v@[0], "contentWarning"@) == Some(w@))
                },
            },
    ;
}

impl RssItemExt for Item {
    open spec fn iwt_well_formed_spec(&self) -> bool {
        iwt_well_formed(*self)
    }

    open spec fn iwt_entry(&self) -> Option<Vec<Extension>> {
        spec_iwt_extension_entry(*self)
    }

    fn get_iwt_extension(&self) -> (r: Option<IwtRssExtension>) {
        let root = match assoc_get(&self.extensions, "iwt") {
            None => {
                return None;
            },
            Some(m) => m,
        };
        let entry = match assoc_get(root, "extension") {
            None => {
                return None;
            },
            Some(v) => v,
        };
        let iwt_extension = &entry[0];
        let ghost tns = spec_get_children(*iwt_extension, "targetNetwork"@);
        let children = get_children(iwt_extension, "targetNetwork");
        let mut target_networks: Vec<IwtRssTargetNetwork> = Vec::new();
        let mut i: usize = 0;
        while i < children.len()
            invariant
                children@.len() == tns.len(),
                forall|j: int| 0 <= j < tns.len() ==> *#[trigger] children@[j] == tns[j],
                forall|j: int| 0 <= j < tns.len() ==> {
                    &&& #[trigger] spec_target_network_name(tns[j]) is Some
                    &&& spec_network_of(spec_target_network_name(tns[j])->Some_0) is Some
                },
                0 <= i <= tns.len(),
                target_networks@.len() == i,
                forall|j: int| 0 <= j < i
                    ==> #[trigger] target_networks@[j].network
                        == spec_network_of(spec_target_network_name(tns[j])->Some_0)->Some_0,
            decreases children@.len() - i,
        {
            let target_network = children[i];
            proof {
                assert(*children@[i as int] == tns[i as int]);
                assert(spec_target_network_name(tns[i as int]) is Some
                    && spec_network_of(spec_target_network_name(tns[i as int])->Some_0) is Some);
            }
            let name_children = get_children(target_network, "targetNetworkName");
            proof {
                assert(spec_get_children(tns[i as int], "targetNetworkName"@).len() > 0);
                assert(spec_get_key(tns[i as int], "targetNetworkName"@)
                    == Some(spec_get_children(tns[i as int], "targetNetworkName"@)[0]));
            }
            let name = name_children[0].value.as_ref().unwrap();
            let network = if str_eq(name.as_str(), "twitter") {
                Network::Twitter
            } else {
                Network::Mastodon
            };
            target_networks.push(IwtRssTargetNetwork { network });
            i += 1;
        }
        let content_warning = match get_value(iwt_extension, "contentWarning") {
            Some(s) => Some(s.to_owned()),
            None => None,
        };
        Some(IwtRssExtension { target_networks, content_warning })
    }
}

} // verus!
