//! Key versions: the versions that the service keeps of one named key, the
//! choice of the current one, and the check of its declared algorithm.

use crate::assoc::{
    assoc_map, distinct_keys, lemma_assoc_key_has_pair, lemma_assoc_pair_is_entry,
    lemma_assoc_push, lemma_assoc_replace,
};
use crate::error::{Error, Fault};
use crate::json::{member, member_names, text_member, value_model, JsonValue};
use crate::text::{
    decimal_text, lemma_occurs_between, lemma_parsed_decimal_iff, occurs_in, parse_decimal,
    parsed_decimal, same_text,
};
use serde_json::Value;
use vstd::prelude::*;
use vstd::string::*;

verus! {

/// The key type that consensus signing expects.
pub const CONSENUS_KEY_TYPE: &'static str = "ed25519";

/// What the service says of one version of a key, as far as the client
/// reads it.
#[derive(Debug, Clone, PartialEq, Eq)]
pub struct KeyAttributes {
    /// The attribute `public_key`: the public key in base64.
    pub public_key: Option<String>,
    /// The attribute `name`: the identifier of the key type.
    pub name: Option<String>,
}

/// The mathematical value of [`KeyAttributes`].
pub struct KeyAttributesModel {
    pub public_key: Option<Seq<char>>,
    pub name: Option<Seq<char>>,
}

impl View for KeyAttributes {
    type V = KeyAttributesModel;

    open spec fn view(&self) -> KeyAttributesModel {
        KeyAttributesModel {
            public_key: match self.public_key {
                Some(text) => Some(text@),
                None => None,
            },
            name: match self.name {
                Some(text) => Some(text@),
                None => None,
            },
        }
    }
}

/// The reason given when a key version has no attribute `public_key`.
pub open spec fn missing_public_key_text() -> Seq<char> {
    "Public key: unable to retrieve - \"public_key\" key is not found!"@
}

/// The reason given when a key version does not say of which type it is.
pub open spec fn unknown_key_type_text(key_name: Seq<char>) -> Seq<char> {
    "Public key \""@ + key_name + "\": expected key type:"@ + CONSENUS_KEY_TYPE@
        + ", unable to determine type"@
}

/// The reason given when a key version is of another type than consensus
/// signing expects.
pub open spec fn wrong_key_type_text(key_name: Seq<char>, received: Seq<char>) -> Seq<char> {
    "Public key \""@ + key_name + "\": expected key type:"@ + CONSENUS_KEY_TYPE@
        + ", received:"@ + received
}

/// The public key, in base64, of a key version that is fit for consensus
/// signing, or why the version is not.
pub open spec fn consensus_key_of(key_name: Seq<char>, attributes: KeyAttributesModel) -> Result<
    Seq<char>,
    Fault,
> {
    match attributes.public_key {
        None => Err(Fault::InvalidPubKey(missing_public_key_text())),
        Some(key) => match attributes.name {
            None => Err(Fault::InvalidPubKey(unknown_key_type_text(key_name))),
            Some(key_type) => if key_type == CONSENUS_KEY_TYPE@ {
                Ok(key)
            } else {
                Err(Fault::InvalidPubKey(wrong_key_type_text(key_name, key_type)))
            },
        },
    }
}

/// A key of any type but the expected one is refused, for a reason that
/// names both the expected type and the type that was received.
pub proof fn lemma_wrong_key_type_is_named(
    key_name: Seq<char>,
    public_key: Seq<char>,
    key_type: Seq<char>,
)
    requires
        key_type != CONSENUS_KEY_TYPE@,
    ensures
        consensus_key_of(
            key_name,
            KeyAttributesModel { public_key: Some(public_key), name: Some(key_type) },
        ) == Err::<Seq<char>, Fault>(
            Fault::InvalidPubKey(wrong_key_type_text(key_name, key_type)),
        ),
        occurs_in(CONSENUS_KEY_TYPE@, wrong_key_type_text(key_name, key_type)),
        occurs_in(key_type, wrong_key_type_text(key_name, key_type)),
{
    let head = "Public key \""@ + key_name + "\": expected key type:"@;
    lemma_occurs_between(head, CONSENUS_KEY_TYPE@, ", received:"@ + key_type);
    assert(head + CONSENUS_KEY_TYPE@ + (", received:"@ + key_type) =~= wrong_key_type_text(
        key_name,
        key_type,
    ));
    lemma_occurs_between(head + CONSENUS_KEY_TYPE@ + ", received:"@, key_type, Seq::empty());
    assert(head + CONSENUS_KEY_TYPE@ + ", received:"@ + key_type + Seq::<char>::empty()
        =~= wrong_key_type_text(key_name, key_type));
}

/// The attributes that a JSON document describes: an object all of whose
/// members are strings.
pub open spec fn attributes_of(document: JsonValue) -> Option<KeyAttributesModel> {
    match document {
        JsonValue::Object(members) => if forall|name: Seq<char>| #[trigger]
            members.contains_key(name) ==> members[name] is String {
            Some(
                KeyAttributesModel {
                    public_key: document.member_text("public_key"@),
                    name: document.member_text("name"@),
                },
            )
        } else {
            None
        },
        _ => None,
    }
}

/// The key versions that a JSON document describes: an object each of whose
/// members has a decimal numeral of at most 64 bits for its name and the
/// attributes of that version for its value.
pub open spec fn key_versions_of(document: JsonValue) -> Option<Map<u64, KeyAttributesModel>> {
    match document {
        JsonValue::Object(members) => if forall|name: Seq<char>| #[trigger]
            members.contains_key(name) ==> parsed_decimal(name) is Some && attributes_of(
                members[name],
            ) is Some {
            Some(
                Map::new(
                    |version: u64| members.contains_key(decimal_text(version as nat)),
                    |version: u64| attributes_of(members[decimal_text(version as nat)])->0,
                ),
            )
        } else {
            None
        },
        _ => None,
    }
}

impl KeyAttributes {
    /// Reads the attributes of one key version.
    pub fn from_json(value: &Value) -> (res: Option<KeyAttributes>)
        ensures
            match attributes_of(value_model(*value)) {
                Some(model) => res matches Some(attributes) && attributes@ == model,
                None => res is None,
            },
    {
        let names = match member_names(value) {
            Some(names) => names,
            None => { return None; },
        };
        let ghost members = value_model(*value)->Object_0;
        let ghost keys = names@.map_values(|s: String| s@);
        let mut i: usize = 0;
        while i < names.len()
            invariant
                i <= names.len(),
                value_model(*value) == JsonValue::Object(members),
                keys == names@.map_values(|s: String| s@),
                keys.to_set() == members.dom(),
                forall|j: int| 0 <= j < i ==> members[#[trigger] keys[j]] is String,
            decreases names.len() - i,
        {
            assert(keys.to_set().contains(keys[i as int]));
            assert(members.contains_key(keys[i as int]));
            match member(value, names[i].as_str()) {
                Some(m) => {
                    if m.as_str().is_none() {
                        return None;
                    }
                },
                None => { return None; },
            }
            i = i + 1;
        }
        proof {
            assert forall|name: Seq<char>| #[trigger]
                members.contains_key(name) implies members[name] is String by {
                assert(keys.to_set().contains(name));
                let j = choose|j: int| 0 <= j < keys.len() && keys[j] == name;
                assert(members[keys[j]] is String);
            }
        }
        Some(
            KeyAttributes {
                public_key: text_member(value, "public_key"),
                name: text_member(value, "name"),
            },
        )
    }
}

impl KeyAttributes {
    /// The public key of this version, in base64, provided that the version
    /// declares the key type that consensus signing expects. `key_name` is
    /// the name under which the key was asked for.
    pub fn consensus_key<'a>(&'a self, key_name: &str) -> (res: Result<&'a str, Error>)
        ensures
            match consensus_key_of(key_name@, self@) {
                Ok(key) => res matches Ok(text) && text@ == key,
                Err(fault) => res matches Err(e) && e@ == fault,
            },
    {
        let key = match &self.public_key {
            Some(key) => key,
            None => {
                return Err(
                    Error::InvalidPubKey(
                        String::from_str(
                            "Public key: unable to retrieve - \"public_key\" key is not found!",
                        ),
                    ),
                );
            },
        };
        let head = String::from_str("Public key \"").concat(key_name).concat(
            "\": expected key type:",
        ).concat(CONSENUS_KEY_TYPE);
        match &self.name {
            None => Err(Error::InvalidPubKey(head.concat(", unable to determine type"))),
            Some(key_type) => {
                if same_text(key_type.as_str(), CONSENUS_KEY_TYPE) {
                    Ok(key.as_str())
                } else {
                    Err(
                        Error::InvalidPubKey(
                            head.concat(", received:").concat(key_type.as_str()),
                        ),
                    )
                }
            },
        }
    }
}

#[derive(Debug)]
struct KeyVersion {
    version: u64,
    attributes: KeyAttributes,
}

/// The versions of one named key, each with its attributes. No version
/// occurs twice.
#[derive(Debug)]
pub struct KeyVersions {
    entries: Vec<KeyVersion>,
}

/// Whether `version` is the highest version in `versions`.
pub open spec fn is_latest(versions: Map<u64, KeyAttributesModel>, version: u64) -> bool {
    &&& versions.contains_key(version)
    &&& forall|other: u64| versions.contains_key(other) ==> other <= version
}

/// There is one highest version at most.
pub proof fn lemma_latest_is_unique(versions: Map<u64, KeyAttributesModel>, a: u64, b: u64)
    requires
        is_latest(versions, a),
        is_latest(versions, b),
    ensures
        a == b,
{
}

/// The reason given when there is no version to select.
pub open spec fn no_version_text() -> Seq<char> {
    "Public key: unable to retrieve last version - not available!"@
}

impl KeyVersions {
    spec fn pairs(self) -> Seq<(u64, KeyAttributesModel)> {
        self.entries@.map_values(|e: KeyVersion| (e.version, e.attributes@))
    }

    #[verifier::type_invariant]
    spec fn distinct(self) -> bool {
        distinct_keys(self.pairs())
    }

    /// No versions.
    pub fn new() -> (versions: Self)
        ensures
            versions@ == Map::<u64, KeyAttributesModel>::empty(),
    {
        let versions = KeyVersions { entries: Vec::new() };
        assert(versions.pairs() =~= Seq::empty());
        versions
    }

    /// Whether there is no version at all.
    pub fn is_empty(&self) -> (empty: bool)
        ensures
            empty == (self@ == Map::<u64, KeyAttributesModel>::empty()),
    {
        proof {
            use_type_invariant(self);
            if self.entries.len() > 0 {
                lemma_assoc_pair_is_entry(self.pairs(), 0);
            } else {
                assert(self.pairs() =~= Seq::empty());
            }
        }
        self.entries.len() == 0
    }

    /// Records `attributes` under `version`, in place of what was recorded
    /// under it before.
    pub fn insert(&mut self, version: u64, attributes: KeyAttributes)
        ensures
            final(self)@ == old(self)@.insert(version, attributes@),
    {
        proof {
            use_type_invariant(&*self);
        }
        let ghost before = self.pairs();
        let mut found: Option<usize> = None;
        let mut i: usize = 0;
        while i < self.entries.len() && found.is_none()
            invariant
                i <= self.entries.len(),
                found is None ==> forall|j: int| 0 <= j < i ==> self.entries[j].version != version,
                found matches Some(at) ==> at < self.entries.len() && self.entries[at as int].version
                    == version,
            decreases self.entries.len() - i + (if found is None { 1int } else { 0int }),
        {
            if self.entries[i].version == version {
                found = Some(i);
            } else {
                i = i + 1;
            }
        }
        let mut entries: Vec<KeyVersion> = Vec::new();
        proof {
            assert(entries@.map_values(|e: KeyVersion| (e.version, e.attributes@)) =~= Seq::empty());
        }
        std::mem::swap(&mut self.entries, &mut entries);
        match found {
            Some(at) => {
                proof {
                    lemma_assoc_replace(before, at as int, attributes@);
                    assert(before.update(at as int, (version, attributes@)) =~= entries@.update(
                        at as int,
                        KeyVersion { version, attributes },
                    ).map_values(|e: KeyVersion| (e.version, e.attributes@)));
                }
                entries.set(at, KeyVersion { version, attributes });
            },
            None => {
                proof {
                    let after = before.push((version, attributes@));
                    lemma_assoc_push(before, version, attributes@);
                    assert(after =~= entries@.push(KeyVersion { version, attributes }).map_values(
                        |e: KeyVersion| (e.version, e.attributes@),
                    ));
                    assert(distinct_keys(after)) by {
                        assert forall|a: int, b: int|
                            0 <= a < after.len() && 0 <= b < after.len() && a != b implies (
                        #[trigger] after[a]).0 != (#[trigger] after[b]).0 by {
                            if a < before.len() && b < before.len() {
                                assert(before[a].0 != before[b].0);
                            }
                        }
                    }
                }
                entries.push(KeyVersion { version, attributes });
            },
        }
        std::mem::swap(&mut self.entries, &mut entries);
    }

    /// The attributes recorded under `version`.
    pub fn get(&self, version: u64) -> (found: Option<&KeyAttributes>)
        ensures
            match found {
                Some(attributes) => self@.contains_key(version) && self@[version] == attributes@,
                None => !self@.contains_key(version),
            },
    {
        proof {
            use_type_invariant(self);
        }
        let mut i: usize = 0;
        while i < self.entries.len()
            invariant
                i <= self.entries.len(),
                forall|j: int| 0 <= j < i ==> self.entries[j].version != version,
            decreases self.entries.len() - i,
        {
            if self.entries[i].version == version {
                proof {
                    use_type_invariant(self);
                    lemma_assoc_pair_is_entry(self.pairs(), i as int);
                }
                return Some(&self.entries[i].attributes);
            }
            i = i + 1;
        }
        proof {
            if self@.contains_key(version) {
                lemma_assoc_key_has_pair(self.pairs(), version);
            }
        }
        None
    }

    /// The current version of the key: the one with the highest number, all
    /// older versions being kept for verification only.
    pub fn select_latest(&self) -> (res: Result<(u64, &KeyAttributes), Error>)
        ensures
            match res {
                Ok((version, attributes)) => is_latest(self@, version) && self@[version]
                    == attributes@,
                Err(e) => self@ == Map::<u64, KeyAttributesModel>::empty() && e@
                    == Fault::InvalidPubKey(no_version_text()),
            },
    {
        proof {
            use_type_invariant(self);
        }
        if self.is_empty() {
            return Err(
                Error::InvalidPubKey(
                    String::from_str("Public key: unable to retrieve last version - not available!"),
                ),
            );
        }
        let mut best: usize = 0;
        let mut i: usize = 1;
        while i < self.entries.len()
            invariant
                best < i <= self.entries.len(),
                forall|j: int| 0 <= j < i ==> self.entries[j].version <= self.entries[best as int].version,
            decreases self.entries.len() - i,
        {
            if self.entries[i].version > self.entries[best].version {
                best = i;
            }
            i = i + 1;
        }
        let version = self.entries[best].version;
        proof {
            lemma_assoc_pair_is_entry(self.pairs(), best as int);
            assert forall|other: u64| self@.contains_key(other) implies other <= version by {
                lemma_assoc_key_has_pair(self.pairs(), other);
            }
        }
        Ok((version, &self.entries[best].attributes))
    }
}

impl KeyVersions {
    /// Reads the versions of a key.
    pub fn from_json(value: &Value) -> (res: Option<KeyVersions>)
        ensures
            match key_versions_of(value_model(*value)) {
                Some(model) => res matches Some(versions) && versions@ == model,
                None => res is None,
            },
    {
        let names = match member_names(value) {
            Some(names) => names,
            None => { return None; },
        };
        let ghost members = value_model(*value)->Object_0;
        let ghost keys = names@.map_values(|s: String| s@);
        let mut versions = KeyVersions::new();
        let mut i: usize = 0;
        while i < names.len()
            invariant
                i <= names.len(),
                value_model(*value) == JsonValue::Object(members),
                keys == names@.map_values(|s: String| s@),
                keys.no_duplicates(),
                keys.to_set() == members.dom(),
                forall|j: int|
                    0 <= j < i ==> {
                        &&& parsed_decimal(#[trigger] keys[j]) matches Some(version)
                        &&& attributes_of(members[keys[j]]) matches Some(attributes)
                        &&& versions@.contains_key(version)
                        &&& versions@[version] == attributes
                    },
                forall|version: u64| #[trigger]
                    versions@.contains_key(version) ==> exists|j: int|
                        0 <= j < i && #[trigger] keys[j] == decimal_text(version as nat),
            decreases names.len() - i,
        {
            assert(keys.to_set().contains(keys[i as int]));
            assert(members.contains_key(keys[i as int]));
            let version = match parse_decimal(names[i].as_str()) {
                Some(version) => version,
                None => { return None; },
            };
            let attributes = match member(value, names[i].as_str()) {
                Some(m) => match KeyAttributes::from_json(m) {
                    Some(attributes) => attributes,
                    None => { return None; },
                },
                None => { return None; },
            };
            let ghost before = versions@;
            proof {
                lemma_parsed_decimal_iff(keys[i as int], version);
                assert forall|j: int| 0 <= j < i implies parsed_decimal(#[trigger] keys[j])
                    != Some(version) by {
                    lemma_parsed_decimal_iff(keys[j], version);
                }
            }
            versions.insert(version, attributes);
            proof {
                assert forall|other: u64| #[trigger] versions@.contains_key(other) implies exists|
                    j: int,
                |
                    0 <= j < i + 1 && #[trigger] keys[j] == decimal_text(other as nat) by {
                    if other == version {
                        assert(keys[i as int] == decimal_text(other as nat));
                    } else {
                        assert(before.contains_key(other));
                        let j = choose|j: int|
                            0 <= j < i && #[trigger] keys[j] == decimal_text(other as nat);
                        assert(0 <= j < i + 1 && keys[j] == decimal_text(other as nat));
                    }
                }
            }
            i = i + 1;
        }
        proof {
            assert forall|name: Seq<char>| #[trigger] members.contains_key(name) implies (
            parsed_decimal(name) is Some && attributes_of(members[name]) is Some) by {
                assert(keys.to_set().contains(name));
                let j = choose|j: int| 0 <= j < keys.len() && keys[j] == name;
                assert(parsed_decimal(keys[j]) is Some);
            }
            let model = key_versions_of(value_model(*value))->0;
            assert forall|version: u64| versions@.contains_key(version) <==> model.contains_key(
                version,
            ) by {
                let name = decimal_text(version as nat);
                if versions@.contains_key(version) {
                    let j = choose|j: int| 0 <= j < i && #[trigger] keys[j] == name;
                    assert(keys.to_set().contains(keys[j]));
                }
                if model.contains_key(version) {
                    assert(keys.to_set().contains(name));
                    let j = choose|j: int| 0 <= j < keys.len() && keys[j] == name;
                    lemma_parsed_decimal_iff(keys[j], version);
                }
            }
            assert forall|version: u64| versions@.contains_key(version) implies versions@[version]
                == model[version] by {
                let name = decimal_text(version as nat);
                let j = choose|j: int| 0 <= j < i && #[trigger] keys[j] == name;
                lemma_parsed_decimal_iff(keys[j], version);
            }
            assert(versions@ =~= model);
        }
        Some(versions)
    }
}

impl View for KeyVersions {
    type V = Map<u64, KeyAttributesModel>;

    closed spec fn view(&self) -> Map<u64, KeyAttributesModel> {
        assoc_map(self.pairs())
    }
}

} // verus!
