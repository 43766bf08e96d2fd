//! The normalized front matter of an article.

use vstd::hash_map::StringHashMap;
use vstd::prelude::*;
use vstd::seq_lib::seq_to_set_is_finite;
use vstd::string::*;

verus! {

/// The fields of a front-matter block as they were read: a mapping from key to
/// value. It holds finitely many fields and knows their keys.
pub struct FieldMap {
    keys: Vec<String>,
    entries: StringHashMap<String>,
}

impl View for FieldMap {
    type V = Map<Seq<char>, Seq<char>>;

    closed spec fn view(&self) -> Map<Seq<char>, Seq<char>> {
        self.entries@.map_values(|value: String| value@)
    }
}

/// The texts of a list of keys.
pub open spec fn key_views(keys: Seq<String>) -> Seq<Seq<char>> {
    keys.map_values(|key: String| key@)
}

/// Taking one item out of a list without repetitions leaves a list without
/// repetitions, whose items are the others.
pub proof fn lemma_remove_from_unique<A>(s: Seq<A>, i: int)
    requires
        s.no_duplicates(),
        0 <= i < s.len(),
    ensures
        s.remove(i).no_duplicates(),
        s.remove(i).to_set() == s.to_set().remove(s[i]),
{
    let r = s.remove(i);
    assert forall|a: int, b: int| 0 <= a < r.len() && 0 <= b < r.len() && a != b implies r[a]
        != r[b] by {
        let a0 = if a < i { a } else { a + 1 };
        let b0 = if b < i { b } else { b + 1 };
        assert(r[a] == s[a0] && r[b] == s[b0]);
    }
    assert forall|x: A| r.to_set().contains(x) <==> s.to_set().remove(s[i]).contains(x) by {
        if r.contains(x) {
            let a = choose|a: int| 0 <= a < r.len() && r[a] == x;
            let a0 = if a < i { a } else { a + 1 };
            assert(s[a0] == x);
        }
        if s.contains(x) && x != s[i] {
            let a0 = choose|a0: int| 0 <= a0 < s.len() && s[a0] == x;
            let a = if a0 < i { a0 } else { a0 - 1 };
            assert(r[a] == x);
        }
    }
    assert(r.to_set() =~= s.to_set().remove(s[i]));
}

impl FieldMap {
    /// The list of keys holds each key of the mapping once, and no other.
    #[verifier::type_invariant]
    spec fn keys_are_the_domain(self) -> bool {
        &&& key_views(self.keys@).no_duplicates()
        &&& key_views(self.keys@).to_set() == self.entries@.dom()
    }

    /// Takes the list of keys and the entries out, and leaves an empty mapping.
    fn take_apart(&mut self) -> (parts: (Vec<String>, StringHashMap<String>))
        ensures
            parts.0 == old(self).keys,
            parts.1 == old(self).entries,
            key_views(parts.0@).no_duplicates(),
            key_views(parts.0@).to_set() == parts.1@.dom(),
    {
        proof {
            use_type_invariant(&*self);
        }
        let keys: Vec<String> = Vec::new();
        let entries: StringHashMap<String> = StringHashMap::new();
        assert(key_views(keys@).to_set() =~= entries@.dom());
        let mut taken = FieldMap { keys, entries };
        core::mem::swap(self, &mut taken);
        let FieldMap { keys, entries } = taken;
        (keys, entries)
    }

    /// A mapping without fields.
    pub fn new() -> (fields: FieldMap)
        ensures
            fields@ == Map::<Seq<char>, Seq<char>>::empty(),
            fields@.dom().finite(),
    {
        let keys: Vec<String> = Vec::new();
        let entries: StringHashMap<String> = StringHashMap::new();
        assert(key_views(keys@).to_set() =~= entries@.dom());
        let fields = FieldMap { keys, entries };
        assert(fields@ =~= Map::<Seq<char>, Seq<char>>::empty());
        fields
    }

    /// Sets `key` to `value`, whatever it was set to before.
    pub fn insert(&mut self, key: String, value: String)
        ensures
            final(self)@ == old(self)@.insert(key@, value@),
            final(self)@.dom().finite(),
    {
        let (mut keys, mut entries) = self.take_apart();
        let ghost before = key_views(keys@);
        if !entries.contains_key(key.as_str()) {
            keys.push(key.clone());
            proof {
                assert(key_views(keys@) =~= before.push(key@));
                before.lemma_push_to_set_commute(key@);
            }
        } else {
            assert(before.to_set().insert(key@) =~= before.to_set());
        }
        let ghost dom = entries@.dom();
        entries.insert(key, value);
        proof {
            assert(entries@.dom() =~= dom.insert(key@));
            seq_to_set_is_finite(key_views(keys@));
        }
        *self = FieldMap { keys, entries };
        proof {
            assert(self@ =~= old(self)@.insert(key@, value@));
            assert(self@.dom() =~= self.entries@.dom());
        }
    }

    /// The value of `key`, where it is set.
    pub fn get(&self, key: &str) -> (value: Option<String>)
        ensures
            match value {
                Some(v) => self@.contains_key(key@) && self@[key@] == v@,
                None => !self@.contains_key(key@),
            },
    {
        match self.entries.get(key) {
            Some(v) => Some(v.clone()),
            None => None,
        }
    }

    /// Whether `key` is set.
    pub fn contains_key(&self, key: &str) -> (found: bool)
        ensures
            found == self@.contains_key(key@),
    {
        self.entries.contains_key(key)
    }

    /// Unsets `key`.
    pub fn remove(&mut self, key: &str)
        ensures
            final(self)@ == old(self)@.remove(key@),
            final(self)@.dom().finite(),
    {
        let (mut keys, mut entries) = self.take_apart();
        let ghost before = key_views(keys@);
        let wanted: String = key.to_owned();
        let mut i: usize = 0;
        while i < keys.len() && keys[i] != wanted
            invariant
                i <= keys.len(),
                wanted@ == key@,
                before == key_views(keys@),
                forall|j: int| 0 <= j < i ==> before[j] != key@,
            decreases keys.len() - i,
        {
            assert(before[i as int] == keys@[i as int]@);
            i += 1;
        }
        if i < keys.len() {
            assert(before[i as int] == keys@[i as int]@);
            keys.remove(i);
            proof {
                assert(key_views(keys@) =~= before.remove(i as int));
                lemma_remove_from_unique(before, i as int);
            }
        } else {
            proof {
                if before.contains(key@) {
                    let j = choose|j: int| 0 <= j < before.len() && before[j] == key@;
                    assert(before[j] != key@);
                }
                assert(before.to_set().remove(key@) =~= before.to_set());
            }
        }
        let ghost dom = entries@.dom();
        entries.remove(key);
        proof {
            assert(entries@.dom() =~= dom.remove(key@));
            seq_to_set_is_finite(key_views(keys@));
        }
        *self = FieldMap { keys, entries };
        proof {
            assert(self@ =~= old(self)@.remove(key@));
            assert(self@.dom() =~= self.entries@.dom());
        }
    }

    /// The number of fields.
    pub fn len(&self) -> (n: usize)
        ensures
            self@.dom().finite(),
            n == self@.len(),
    {
        proof {
            use_type_invariant(self);
            key_views(self.keys@).unique_seq_to_set();
            seq_to_set_is_finite(key_views(self.keys@));
            assert(self@.dom() =~= self.entries@.dom());
        }
        self.keys.len()
    }

    /// The keys of the fields, each once, in no promised order.
    pub fn keys(&self) -> (keys: Vec<String>)
        ensures
            self@.dom().finite(),
            key_views(keys@).no_duplicates(),
            key_views(keys@).to_set() == self@.dom(),
            keys.len() == self@.len(),
    {
        proof {
            use_type_invariant(self);
            key_views(self.keys@).unique_seq_to_set();
            seq_to_set_is_finite(key_views(self.keys@));
            assert(self@.dom() =~= self.entries@.dom());
        }
        let mut keys: Vec<String> = Vec::new();
        let mut i: usize = 0;
        while i < self.keys.len()
            invariant
                i <= self.keys.len(),
                key_views(keys@) == key_views(self.keys@).take(i as int),
            decreases self.keys.len() - i,
        {
            let ghost before = key_views(keys@);
            keys.push(self.keys[i].clone());
            assert(key_views(keys@) =~= before.push(self.keys@[i as int]@));
            assert(key_views(self.keys@).take(i + 1) =~= key_views(self.keys@).take(i as int).push(
                self.keys@[i as int]@,
            ));
            i += 1;
        }
        assert(key_views(self.keys@).take(i as int) =~= key_views(self.keys@));
        keys
    }
}

/// The front matter of an article as a mathematical value.
pub struct FrontMatterView {
    pub title: Seq<char>,
    pub published_at: Seq<char>,
    pub custom: Map<Seq<char>, Seq<char>>,
}

/// The value of `key` in `raw`, or the empty text where `raw` has no such key.
pub open spec fn field_or_empty(raw: Map<Seq<char>, Seq<char>>, key: Seq<char>) -> Seq<char> {
    if raw.contains_key(key) {
        raw[key]
    } else {
        Seq::empty()
    }
}

/// The front matter that the fields `raw` stand for: the two known keys taken
/// out, empty where absent, and every other field kept.
pub open spec fn normalized(raw: Map<Seq<char>, Seq<char>>) -> FrontMatterView {
    FrontMatterView {
        title: field_or_empty(raw, "title"@),
        published_at: field_or_empty(raw, "published_at"@),
        custom: raw.remove("title"@).remove("published_at"@),
    }
}

impl FrontMatterView {
    /// Neither known key is among the custom fields, and these are finitely many.
    pub open spec fn well_formed(self) -> bool {
        &&& !self.custom.contains_key("title"@)
        &&& !self.custom.contains_key("published_at"@)
        &&& self.custom.dom().finite()
    }
}

/// How many of the two known keys `raw` holds.
pub open spec fn known_keys_in(raw: Map<Seq<char>, Seq<char>>) -> nat {
    (if raw.contains_key("title"@) {
        1nat
    } else {
        0nat
    }) + (if raw.contains_key("published_at"@) {
        1nat
    } else {
        0nat
    })
}

/// Normalizing loses, alters and invents nothing: the custom fields are as many
/// as the fields read, less the known keys among them, and with the known keys
/// that were read put back they are the fields read.
pub proof fn lemma_normalized_keeps_every_field(raw: Map<Seq<char>, Seq<char>>)
    requires
        raw.dom().finite(),
    ensures
        normalized(raw).well_formed(),
        normalized(raw).custom.len() + known_keys_in(raw) == raw.len(),
        raw.contains_key("title"@) && raw.contains_key("published_at"@) ==> normalized(
            raw,
        ).custom.insert("title"@, normalized(raw).title).insert(
            "published_at"@,
            normalized(raw).published_at,
        ) == raw,
        forall|key: Seq<char>|
            key != "title"@ && key != "published_at"@ ==> (normalized(raw).custom.contains_key(key)
                <==> raw.contains_key(key)),
        forall|key: Seq<char>| #[trigger]
            normalized(raw).custom.contains_key(key) ==> normalized(raw).custom[key] == raw[key],
{
    lemma_known_keys_differ();
    let without_title = raw.remove("title"@);
    assert(without_title.dom() =~= raw.dom().remove("title"@));
    assert(without_title.remove("published_at"@).dom() =~= without_title.dom().remove(
        "published_at"@,
    ));
    assert(raw.dom().len() == raw.dom().remove("title"@).len() + (if raw.dom().contains(
        "title"@,
    ) {
        1int
    } else {
        0int
    }));
    assert(without_title.dom().len() == without_title.dom().remove("published_at"@).len() + (
    if without_title.dom().contains("published_at"@) {
        1int
    } else {
        0int
    }));
    if raw.contains_key("title"@) && raw.contains_key("published_at"@) {
        assert(normalized(raw).custom.insert("title"@, normalized(raw).title).insert(
            "published_at"@,
            normalized(raw).published_at,
        ) =~= raw);
    }
}

/// The metadata of an article, whatever platform it was written for: its title,
/// its date of publication, and the fields that no platform rule knows.
pub struct FrontMatter {
    title: String,
    published_at: String,
    custom: FieldMap,
}

impl View for FrontMatter {
    type V = FrontMatterView;

    closed spec fn view(&self) -> FrontMatterView {
        FrontMatterView {
            title: self.title@,
            published_at: self.published_at@,
            custom: self.custom@,
        }
    }
}

impl FrontMatter {
    #[verifier::type_invariant]
    spec fn custom_holds_no_known_key(self) -> bool {
        self@.well_formed()
    }

    /// Normalizes the fields of a front-matter block. Every mapping is accepted,
    /// and no field is lost: see `lemma_normalized_keeps_every_field`.
    pub fn new(map: FieldMap) -> (model: FrontMatter)
        ensures
            model@ == normalized(map@),
            model@.well_formed(),
            map@.dom().finite(),
            model@.custom.len() + known_keys_in(map@) == map@.len(),
    {
        let ghost raw = map@;
        let _ = map.len();
        proof {
            lemma_normalized_keeps_every_field(raw);
        }
        let mut map = map;
        let mut title: String = String::new();
        let mut published_at: String = String::new();
        match map.get("title") {
            Some(t) => {
                title = t;
                map.remove("title");
            },
            None => {},
        }
        match map.get("published_at") {
            Some(p) => {
                published_at = p;
                map.remove("published_at");
            },
            None => {},
        }
        assert(map@ =~= normalized(raw).custom);
        FrontMatter { title, published_at, custom: map }
    }

    /// The headline of the article.
    pub fn title(&self) -> (title: &str)
        ensures
            title@ == self@.title,
    {
        self.title.as_str()
    }

    /// The date of publication, as the source platform wrote it.
    pub fn published_at(&self) -> (published_at: &str)
        ensures
            published_at@ == self@.published_at,
    {
        self.published_at.as_str()
    }

    /// The number of custom fields.
    pub fn custom_len(&self) -> (n: usize)
        ensures
            n == self@.custom.len(),
            self@.well_formed(),
    {
        proof {
            use_type_invariant(self);
        }
        self.custom.len()
    }

    /// The keys of the custom fields, each once, in no promised order.
    pub fn custom_keys(&self) -> (keys: Vec<String>)
        ensures
            key_views(keys@).no_duplicates(),
            key_views(keys@).to_set() == self@.custom.dom(),
            keys.len() == self@.custom.len(),
            self@.well_formed(),
    {
        proof {
            use_type_invariant(self);
        }
        self.custom.keys()
    }

    /// The value of the custom field `key`, where the article has one.
    pub fn custom(&self, key: &str) -> (value: Option<String>)
        ensures
            match value {
                Some(v) => self@.custom.contains_key(key@) && self@.custom[key@] == v@,
                None => !self@.custom.contains_key(key@),
            },
            self@.well_formed(),
    {
        proof {
            use_type_invariant(self);
        }
        self.custom.get(key)
    }
}

/// The two known keys are different texts.
pub proof fn lemma_known_keys_differ()
    ensures
        "title"@ != "published_at"@,
{
    reveal_strlit("title");
    reveal_strlit("published_at");
    assert("title"@.len() == 5);
    assert("published_at"@.len() == 12);
}

} // verus!
