//! The manifest data model: a typed view of one app's published description,
//! parsed from a structured key/value document and serialized back to it.
//!
//! A document is an ordered list of `(key, Item)` pairs. The fields the
//! engine inspects (`version`, `description`, `homepage`, `license`, `url`,
//! `hash`) are parsed into typed fields; every other key is kept verbatim in
//! an `extras` list so that serialization round-trips fields it does not
//! understand.

use crate::error::ScoopieError;
use vstd::prelude::*;

verus! {

/// One value of a manifest document, as the parser sees it: a string, a list
/// of strings, a table of string pairs, or any other value kept as its
/// serialized text.
#[derive(Debug, PartialEq)]
pub enum Item {
    Str(String),
    List(Vec<String>),
    Table(Vec<(String, String)>),
    Raw(String),
}

/// Spec-level counterpart of `Item`.
#[verifier::ext_equal]
pub enum ItemV {
    Str(Seq<char>),
    List(Seq<Seq<char>>),
    Table(Seq<(Seq<char>, Seq<char>)>),
    Raw(Seq<char>),
}

impl DeepView for Item {
    type V = ItemV;

    open spec fn deep_view(&self) -> ItemV {
        match self {
            Item::Str(s) => ItemV::Str(s@),
            Item::List(l) => ItemV::List(l.deep_view()),
            Item::Table(t) => ItemV::Table(t.deep_view()),
            Item::Raw(s) => ItemV::Raw(s@),
        }
    }
}

/// A license declaration: either a bare identifier string or a table of
/// string fields (identifier, URL, ...), accepted permissively.
#[derive(Debug, PartialEq)]
pub enum License {
    Id(String),
    Meta(Vec<(String, String)>),
}

#[verifier::ext_equal]
pub enum LicenseV {
    Id(Seq<char>),
    Meta(Seq<(Seq<char>, Seq<char>)>),
}

impl DeepView for License {
    type V = LicenseV;

    open spec fn deep_view(&self) -> LicenseV {
        match self {
            License::Id(s) => LicenseV::Id(s@),
            License::Meta(t) => LicenseV::Meta(t.deep_view()),
        }
    }
}

/// A field that holds either one string or an ordered list of strings, with
/// the shape it had in the document preserved.
#[derive(Debug, PartialEq)]
pub enum OneOrMany {
    One(String),
    Many(Vec<String>),
}

#[verifier::ext_equal]
pub enum OneOrManyV {
    One(Seq<char>),
    Many(Seq<Seq<char>>),
}

impl DeepView for OneOrMany {
    type V = OneOrManyV;

    open spec fn deep_view(&self) -> OneOrManyV {
        match self {
            OneOrMany::One(s) => OneOrManyV::One(s@),
            OneOrMany::Many(l) => OneOrManyV::Many(l.deep_view()),
        }
    }
}

/// One app's parsed manifest. Immutable once parsed.
#[derive(Debug, PartialEq)]
pub struct Manifest {
    pub version: String,
    pub description: String,
    pub homepage: String,
    pub license: License,
    pub url: Option<OneOrMany>,
    pub hash: Option<OneOrMany>,
    /// Every document field outside the typed set, in document order.
    pub extras: Vec<(String, Item)>,
}

#[verifier::ext_equal]
pub struct ManifestV {
    pub version: Seq<char>,
    pub description: Seq<char>,
    pub homepage: Seq<char>,
    pub license: LicenseV,
    pub url: Option<OneOrManyV>,
    pub hash: Option<OneOrManyV>,
    pub extras: Seq<(Seq<char>, ItemV)>,
}

impl DeepView for Manifest {
    type V = ManifestV;

    open spec fn deep_view(&self) -> ManifestV {
        ManifestV {
            version: self.version@,
            description: self.description@,
            homepage: self.homepage@,
            license: self.license.deep_view(),
            url: match self.url {
                Some(ref o) => Some(o.deep_view()),
                None => None,
            },
            hash: match self.hash {
                Some(ref o) => Some(o.deep_view()),
                None => None,
            },
            extras: self.extras.deep_view(),
        }
    }
}

/// The keys the parser gives a typed field of its own.
pub open spec fn reserved_key(k: Seq<char>) -> bool {
    ||| k == "version"@
    ||| k == "description"@
    ||| k == "homepage"@
    ||| k == "license"@
    ||| k == "url"@
    ||| k == "hash"@
}

/// The value under the first occurrence of `k`, if any.
pub open spec fn doc_lookup(d: Seq<(Seq<char>, ItemV)>, k: Seq<char>) -> Option<ItemV>
    decreases d.len(),
{
    if d.len() == 0 {
        None
    } else if d[0].0 == k {
        Some(d[0].1)
    } else {
        doc_lookup(d.drop_first(), k)
    }
}

/// The document restricted to keys outside the typed set, order kept.
pub open spec fn doc_extras(d: Seq<(Seq<char>, ItemV)>) -> Seq<(Seq<char>, ItemV)>
    decreases d.len(),
{
    if d.len() == 0 {
        Seq::empty()
    } else if reserved_key(d[0].0) {
        doc_extras(d.drop_first())
    } else {
        seq![d[0]] + doc_extras(d.drop_first())
    }
}

pub open spec fn parse_license_item(i: ItemV) -> Option<LicenseV> {
    match i {
        ItemV::Str(s) => Some(LicenseV::Id(s)),
        ItemV::Table(t) => Some(LicenseV::Meta(t)),
        _ => None,
    }
}

pub open spec fn parse_one_or_many_item(i: ItemV) -> Option<OneOrManyV> {
    match i {
        ItemV::Str(s) => Some(OneOrManyV::One(s)),
        ItemV::List(l) => Some(OneOrManyV::Many(l)),
        _ => None,
    }
}

/// A required field that must be a plain string.
pub open spec fn req_str(d: Seq<(Seq<char>, ItemV)>, k: Seq<char>) -> Option<Seq<char>> {
    match doc_lookup(d, k) {
        Some(ItemV::Str(s)) => Some(s),
        _ => None,
    }
}

/// An optional one-or-many field: `None` means mistyped, `Some(None)` absent.
pub open spec fn opt_oom(d: Seq<(Seq<char>, ItemV)>, k: Seq<char>) -> Option<Option<OneOrManyV>> {
    match doc_lookup(d, k) {
        None => Some(None),
        Some(i) => match parse_one_or_many_item(i) {
            Some(o) => Some(Some(o)),
            None => None,
        },
    }
}

/// When both `url` and `hash` are present their shapes must agree: one hash
/// for one URL, or two lists of equal length binding hashes to URLs by
/// position. A manifest with URLs but no hashes is valid (unverifiable).
pub open spec fn urls_hashes_consistent(url: Option<OneOrManyV>, hash: Option<OneOrManyV>) -> bool {
    match (url, hash) {
        (_, None) => true,
        (None, Some(_)) => true,
        (Some(OneOrManyV::One(_)), Some(OneOrManyV::One(_))) => true,
        (Some(OneOrManyV::Many(us)), Some(OneOrManyV::Many(hs))) => us.len() == hs.len(),
        _ => false,
    }
}

/// A well-formed manifest: URL and hash shapes agree, and no extra entry
/// shadows a typed field.
pub open spec fn manifest_wf(m: ManifestV) -> bool {
    &&& urls_hashes_consistent(m.url, m.hash)
    &&& forall|i: int| 0 <= i < m.extras.len() ==> !reserved_key(#[trigger] m.extras[i].0)
}

/// Structural parse of a manifest document. `None` is a `ManifestInvalid`
/// outcome: a required field missing or mistyped, a mistyped optional field,
/// or disagreeing URL/hash shapes. Unknown fields are kept, never rejected.
pub open spec fn spec_parse(d: Seq<(Seq<char>, ItemV)>) -> Option<ManifestV> {
    if ({
        &&& req_str(d, "version"@) is Some
        &&& req_str(d, "description"@) is Some
        &&& req_str(d, "homepage"@) is Some
        &&& doc_lookup(d, "license"@) is Some
        &&& parse_license_item(doc_lookup(d, "license"@)->Some_0) is Some
        &&& opt_oom(d, "url"@) is Some
        &&& opt_oom(d, "hash"@) is Some
        &&& urls_hashes_consistent(opt_oom(d, "url"@)->Some_0, opt_oom(d, "hash"@)->Some_0)
    }) {
        Some(
            ManifestV {
                version: req_str(d, "version"@)->Some_0,
                description: req_str(d, "description"@)->Some_0,
                homepage: req_str(d, "homepage"@)->Some_0,
                license: parse_license_item(doc_lookup(d, "license"@)->Some_0)->Some_0,
                url: opt_oom(d, "url"@)->Some_0,
                hash: opt_oom(d, "hash"@)->Some_0,
                extras: doc_extras(d),
            },
        )
    } else {
        None
    }
}

/// Serialization emits the typed fields first, in a fixed order and with the
/// shape they were parsed from, then the kept extras in document order.
pub open spec fn serialize_license(l: LicenseV) -> ItemV {
    match l {
        LicenseV::Id(s) => ItemV::Str(s),
        LicenseV::Meta(t) => ItemV::Table(t),
    }
}

pub open spec fn serialize_oom(o: OneOrManyV) -> ItemV {
    match o {
        OneOrManyV::One(s) => ItemV::Str(s),
        OneOrManyV::Many(l) => ItemV::List(l),
    }
}

pub open spec fn oom_field(k: Seq<char>, o: Option<OneOrManyV>) -> Seq<(Seq<char>, ItemV)> {
    match o {
        None => Seq::empty(),
        Some(x) => seq![(k, serialize_oom(x))],
    }
}

pub open spec fn spec_serialize(m: ManifestV) -> Seq<(Seq<char>, ItemV)> {
    seq![
        ("version"@, ItemV::Str(m.version)),
        ("description"@, ItemV::Str(m.description)),
        ("homepage"@, ItemV::Str(m.homepage)),
        ("license"@, serialize_license(m.license)),
    ] + oom_field("url"@, m.url) + oom_field("hash"@, m.hash) + m.extras
}

/// True exactly when `k` reads as `lit`.
fn key_is(k: &String, lit: &str) -> (r: bool)
    ensures
        r == (k@ == lit@),
{
    let s: String = lit.to_owned();
    *k == s
}

fn is_reserved(k: &String) -> (r: bool)
    ensures
        r == reserved_key(k@),
{
    key_is(k, "version") || key_is(k, "description") || key_is(k, "homepage") || key_is(
        k,
        "license",
    ) || key_is(k, "url") || key_is(k, "hash")
}

proof fn lemma_skip_drop_first<T>(s: Seq<T>, i: int)
    requires
        0 <= i < s.len(),
    ensures
        s.skip(i).drop_first() =~= s.skip(i + 1),
        s.skip(i).len() == s.len() - i,
        s.skip(i)[0] == s[i],
{
}

/// The value under the first occurrence of `key`, if any.
fn lookup<'a>(doc: &'a Vec<(String, Item)>, key: &String) -> (r: Option<&'a Item>)
    ensures
        match r {
            Some(it) => doc_lookup(doc.deep_view(), key@) == Some(it.deep_view()),
            None => doc_lookup(doc.deep_view(), key@) is None,
        },
{
    let ghost dv = doc.deep_view();
    proof {
        assert(dv.skip(0) =~= dv);
    }
    let mut i: usize = 0;
    while i < doc.len()
        invariant
            0 <= i <= doc.len(),
            dv == doc.deep_view(),
            dv.len() == doc.len(),
            doc_lookup(dv, key@) == doc_lookup(dv.skip(i as int), key@),
        decreases doc.len() - i,
    {
        proof {
            lemma_skip_drop_first(dv, i as int);
        }
        if doc[i].0 == *key {
            return Some(&doc[i].1);
        }
        i = i + 1;
    }
    proof {
        assert(dv.skip(doc.len() as int) =~= Seq::empty());
    }
    None
}

fn clone_strings(v: &Vec<String>) -> (r: Vec<String>)
    ensures
        r.deep_view() == v.deep_view(),
{
    let mut out: Vec<String> = Vec::new();
    let mut i: usize = 0;
    while i < v.len()
        invariant
            0 <= i <= v.len(),
            out.deep_view() =~= v.deep_view().take(i as int),
        decreases v.len() - i,
    {
        let ghost prev = out.deep_view();
        out.push(v[i].clone());
        proof {
            assert(out.deep_view() =~= prev.push(v.deep_view()[i as int]));
            assert(v.deep_view().take(i + 1) =~= v.deep_view().take(i as int).push(
                v.deep_view()[i as int],
            ));
        }
        i = i + 1;
    }
    proof {
        assert(v.deep_view().take(v.len() as int) =~= v.deep_view());
    }
    out
}

fn clone_pairs(v: &Vec<(String, String)>) -> (r: Vec<(String, String)>)
    ensures
        r.deep_view() == v.deep_view(),
{
    let mut out: Vec<(String, String)> = Vec::new();
    let mut i: usize = 0;
    while i < v.len()
        invariant
            0 <= i <= v.len(),
            out.deep_view() =~= v.deep_view().take(i as int),
        decreases v.len() - i,
    {
        let ghost prev = out.deep_view();
        out.push((v[i].0.clone(), v[i].1.clone()));
        proof {
            assert(out.deep_view() =~= prev.push(v.deep_view()[i as int]));
            assert(v.deep_view().take(i + 1) =~= v.deep_view().take(i as int).push(
                v.deep_view()[i as int],
            ));
        }
        i = i + 1;
    }
    proof {
        assert(v.deep_view().take(v.len() as int) =~= v.deep_view());
    }
    out
}

/// A structural copy of an `Item`, equal to the original in every field.
fn clone_item(it: &Item) -> (r: Item)
    ensures
        r.deep_view() == it.deep_view(),
{
    match it {
        Item::Str(s) => Item::Str(s.clone()),
        Item::List(l) => Item::List(clone_strings(l)),
        Item::Table(t) => Item::Table(clone_pairs(t)),
        Item::Raw(s) => Item::Raw(s.clone()),
    }
}

proof fn lemma_lookup_concat(a: Seq<(Seq<char>, ItemV)>, b: Seq<(Seq<char>, ItemV)>, k: Seq<char>)
    ensures
        doc_lookup(a + b, k) == (if doc_lookup(a, k) is Some {
            doc_lookup(a, k)
        } else {
            doc_lookup(b, k)
        }),
    decreases a.len(),
{
    if a.len() == 0 {
        assert(a + b =~= b);
    } else {
        assert((a + b).drop_first() =~= a.drop_first() + b);
        lemma_lookup_concat(a.drop_first(), b, k);
    }
}

proof fn lemma_extras_concat(a: Seq<(Seq<char>, ItemV)>, b: Seq<(Seq<char>, ItemV)>)
    ensures
        doc_extras(a + b) =~= doc_extras(a) + doc_extras(b),
    decreases a.len(),
{
    if a.len() == 0 {
        assert(a + b =~= b);
        assert(doc_extras(a) + doc_extras(b) =~= doc_extras(b));
    } else {
        assert((a + b).drop_first() =~= a.drop_first() + b);
        lemma_extras_concat(a.drop_first(), b);
        if !reserved_key(a[0].0) {
            assert(seq![a[0]] + (doc_extras(a.drop_first()) + doc_extras(b)) =~= (seq![a[0]]
                + doc_extras(a.drop_first())) + doc_extras(b));
        }
    }
}

/// Every entry that `doc_extras` keeps has a key outside the typed set.
proof fn lemma_extras_keys(d: Seq<(Seq<char>, ItemV)>)
    ensures
        forall|i: int|
            0 <= i < doc_extras(d).len() ==> !reserved_key(#[trigger] doc_extras(d)[i].0),
    decreases d.len(),
{
    if d.len() > 0 {
        lemma_extras_keys(d.drop_first());
        if !reserved_key(d[0].0) {
            let e = doc_extras(d);
            let rest = doc_extras(d.drop_first());
            assert(e =~= seq![d[0]] + rest);
            assert forall|i: int| 0 <= i < e.len() implies !reserved_key(#[trigger] e[i].0) by {
                if i == 0 {
                    assert(e[0] == d[0]);
                } else {
                    assert(e[i] == rest[i - 1]);
                }
            }
        }
    }
}

/// A key that no entry carries is not found.
proof fn lemma_lookup_absent(d: Seq<(Seq<char>, ItemV)>, k: Seq<char>)
    requires
        forall|i: int| 0 <= i < d.len() ==> (#[trigger] d[i].0) != k,
    ensures
        doc_lookup(d, k) is None,
    decreases d.len(),
{
    if d.len() > 0 {
        lemma_lookup_absent(d.drop_first(), k);
    }
}

/// Keeping only non-typed keys keeps everything when no key is typed.
proof fn lemma_extras_id(d: Seq<(Seq<char>, ItemV)>)
    requires
        forall|i: int| 0 <= i < d.len() ==> !reserved_key(#[trigger] d[i].0),
    ensures
        doc_extras(d) =~= d,
    decreases d.len(),
{
    if d.len() > 0 {
        lemma_extras_id(d.drop_first());
        assert(seq![d[0]] + d.drop_first() =~= d);
    }
}

impl Manifest {
    /// Structural parse of a manifest document, exactly as `spec_parse`
    /// says: required string fields, a permissive license, optional URL and
    /// hash fields whose shapes must agree, and every other field kept.
    pub fn parse(doc: &Vec<(String, Item)>) -> (r: Result<Manifest, ScoopieError>)
        ensures
            match spec_parse(doc.deep_view()) {
                Some(mv) => r matches Ok(m) && m.deep_view() == mv,
                None => r matches Err(ScoopieError::ManifestInvalid),
            },
    {
        let ghost dv = doc.deep_view();
        let version: String = match lookup(doc, &"version".to_owned()) {
            Some(Item::Str(s)) => s.clone(),
            _ => {
                return Err(ScoopieError::ManifestInvalid);
            },
        };
        let description: String = match lookup(doc, &"description".to_owned()) {
            Some(Item::Str(s)) => s.clone(),
            _ => {
                return Err(ScoopieError::ManifestInvalid);
            },
        };
        let homepage: String = match lookup(doc, &"homepage".to_owned()) {
            Some(Item::Str(s)) => s.clone(),
            _ => {
                return Err(ScoopieError::ManifestInvalid);
            },
        };
        let license: License = match lookup(doc, &"license".to_owned()) {
            Some(Item::Str(s)) => License::Id(s.clone()),
            Some(Item::Table(t)) => License::Meta(clone_pairs(t)),
            _ => {
                return Err(ScoopieError::ManifestInvalid);
            },
        };
        let url: Option<OneOrMany> = match lookup(doc, &"url".to_owned()) {
            None => None,
            Some(Item::Str(s)) => Some(OneOrMany::One(s.clone())),
            Some(Item::List(l)) => Some(OneOrMany::Many(clone_strings(l))),
            Some(_) => {
                return Err(ScoopieError::ManifestInvalid);
            },
        };
        let hash: Option<OneOrMany> = match lookup(doc, &"hash".to_owned()) {
            None => None,
            Some(Item::Str(s)) => Some(OneOrMany::One(s.clone())),
            Some(Item::List(l)) => Some(OneOrMany::Many(clone_strings(l))),
            Some(_) => {
                return Err(ScoopieError::ManifestInvalid);
            },
        };
        let consistent: bool = match (&url, &hash) {
            (_, None) => true,
            (None, Some(_)) => true,
            (Some(OneOrMany::One(_)), Some(OneOrMany::One(_))) => true,
            (Some(OneOrMany::Many(us)), Some(OneOrMany::Many(hs))) => us.len() == hs.len(),
            _ => false,
        };
        if !consistent {
            return Err(ScoopieError::ManifestInvalid);
        }
        let mut extras: Vec<(String, Item)> = Vec::new();
        let mut i: usize = 0;
        while i < doc.len()
            invariant
                0 <= i <= doc.len(),
                dv == doc.deep_view(),
                dv.len() == doc.len(),
                extras.deep_view() =~= doc_extras(dv.take(i as int)),
            decreases doc.len() - i,
        {
            proof {
                reveal_with_fuel(doc_extras, 3);
                assert(dv.take(i + 1) =~= dv.take(i as int) + seq![dv[i as int]]);
                lemma_extras_concat(dv.take(i as int), seq![dv[i as int]]);
                assert(seq![dv[i as int]].drop_first() =~= Seq::<(Seq<char>, ItemV)>::empty());
                assert(dv[i as int].0 == doc[i as int].0@);
                if reserved_key(dv[i as int].0) {
                    assert(doc_extras(seq![dv[i as int]]) =~= Seq::<(Seq<char>, ItemV)>::empty());
                    assert(doc_extras(dv.take(i as int)) + Seq::<(Seq<char>, ItemV)>::empty()
                        =~= doc_extras(dv.take(i as int)));
                } else {
                    assert(doc_extras(seq![dv[i as int]]) =~= seq![dv[i as int]]);
                }
            }
            if !is_reserved(&doc[i].0) {
                let ghost prev = extras.deep_view();
                extras.push((doc[i].0.clone(), clone_item(&doc[i].1)));
                proof {
                    assert(extras.deep_view() =~= prev.push(dv[i as int]));
                    assert(prev.push(dv[i as int]) =~= prev + seq![dv[i as int]]);
                }
            }
            i = i + 1;
        }
        proof {
            assert(dv.take(dv.len() as int) =~= dv);
        }
        let m = Manifest { version, description, homepage, license, url, hash, extras };
        proof {
            assert(m.deep_view() =~= spec_parse(dv)->Some_0);
        }
        Ok(m)
    }

    /// Serialization is the structural inverse of parsing: typed fields
    /// first, with the shape they were parsed from, then the kept extras.
    pub fn serialize(&self) -> (r: Vec<(String, Item)>)
        ensures
            r.deep_view() == spec_serialize(self.deep_view()),
    {
        let mut out: Vec<(String, Item)> = Vec::new();
        out.push(("version".to_owned(), Item::Str(self.version.clone())));
        out.push(("description".to_owned(), Item::Str(self.description.clone())));
        out.push(("homepage".to_owned(), Item::Str(self.homepage.clone())));
        let lic: Item = match &self.license {
            License::Id(s) => Item::Str(s.clone()),
            License::Meta(t) => Item::Table(clone_pairs(t)),
        };
        out.push(("license".to_owned(), lic));
        match &self.url {
            None => {},
            Some(OneOrMany::One(s)) => out.push(("url".to_owned(), Item::Str(s.clone()))),
            Some(OneOrMany::Many(l)) => out.push(("url".to_owned(), Item::List(clone_strings(l)))),
        }
        match &self.hash {
            None => {},
            Some(OneOrMany::One(s)) => out.push(("hash".to_owned(), Item::Str(s.clone()))),
            Some(OneOrMany::Many(l)) => out.push(("hash".to_owned(), Item::List(clone_strings(l)))),
        }
        let ghost pre = out.deep_view();
        let mut i: usize = 0;
        while i < self.extras.len()
            invariant
                0 <= i <= self.extras.len(),
                pre == out.deep_view().take(pre.len() as int),
                out.deep_view() =~= pre + self.extras.deep_view().take(i as int),
            decreases self.extras.len() - i,
        {
            let ghost prev = out.deep_view();
            out.push((self.extras[i].0.clone(), clone_item(&self.extras[i].1)));
            proof {
                assert(out.deep_view() =~= prev.push(self.extras.deep_view()[i as int]));
                assert(self.extras.deep_view().take(i + 1) =~= self.extras.deep_view().take(
                    i as int,
                ).push(self.extras.deep_view()[i as int]));
            }
            i = i + 1;
        }
        proof {
            assert(self.extras.deep_view().take(self.extras.len() as int) =~= self.extras.deep_view());
            assert(out.deep_view() =~= spec_serialize(self.deep_view()));
        }
        out
    }
}

/// The ordered URL list a manifest publishes: none, one, or many.
pub open spec fn spec_urls(m: ManifestV) -> Seq<Seq<char>> {
    match m.url {
        None => Seq::empty(),
        Some(OneOrManyV::One(u)) => seq![u],
        Some(OneOrManyV::Many(us)) => us,
    }
}

/// The expected hash at each URL position, `None` where the manifest
/// declares none. Empty when the manifest has no URLs, whatever else it
/// declares.
pub open spec fn spec_hashes(m: ManifestV) -> Seq<Option<Seq<char>>> {
    match (m.url, m.hash) {
        (None, _) => Seq::empty(),
        (_, None) => Seq::new(spec_urls(m).len(), |i: int| None),
        (Some(OneOrManyV::One(_)), Some(OneOrManyV::One(h))) => seq![Some(h)],
        (Some(OneOrManyV::Many(_)), Some(OneOrManyV::Many(hs))) => hs.map_values(
            |h: Seq<char>| Some(h),
        ),
        _ => Seq::empty(),
    }
}

/// When the URL and hash shapes agree, the hash list is aligned with the
/// URL list: position `i` of one speaks of position `i` of the other.
pub proof fn lemma_hashes_align_with_urls(m: ManifestV)
    requires
        urls_hashes_consistent(m.url, m.hash),
    ensures
        spec_hashes(m).len() == spec_urls(m).len(),
{
}

impl Manifest {
    /// The URLs to fetch, in manifest order.
    pub fn urls(&self) -> (r: Vec<String>)
        ensures
            r.deep_view() == spec_urls(self.deep_view()),
    {
        match &self.url {
            None => {
                let r: Vec<String> = Vec::new();
                proof {
                    assert(r.deep_view() =~= spec_urls(self.deep_view()));
                }
                r
            },
            Some(OneOrMany::One(u)) => {
                let mut r: Vec<String> = Vec::new();
                r.push(u.clone());
                proof {
                    assert(r.deep_view() =~= spec_urls(self.deep_view()));
                }
                r
            },
            Some(OneOrMany::Many(us)) => {
                let r = clone_strings(us);
                proof {
                    assert(r.deep_view() =~= spec_urls(self.deep_view()));
                }
                r
            },
        }
    }

    /// The expected hash for each URL position, `None` where the manifest
    /// declares none.
    pub fn hashes(&self) -> (r: Vec<Option<String>>)
        ensures
            r.deep_view() == spec_hashes(self.deep_view()),
    {
        let mut r: Vec<Option<String>> = Vec::new();
        match (&self.url, &self.hash) {
            (None, _) => {},
            (Some(OneOrMany::One(_)), None) => {
                r.push(None);
            },
            (Some(OneOrMany::Many(us)), None) => {
                let n = us.len();
                let mut i: usize = 0;
                while i < n
                    invariant
                        0 <= i <= n,
                        r.deep_view() =~= Seq::new(i as nat, |j: int| None::<Seq<char>>),
                    decreases n - i,
                {
                    let ghost prev = r.deep_view();
                    r.push(None);
                    proof {
                        assert(r.deep_view() =~= prev.push(None::<Seq<char>>));
                        assert(prev.push(None::<Seq<char>>) =~= Seq::new(
                            (i + 1) as nat,
                            |j: int| None::<Seq<char>>,
                        ));
                    }
                    i = i + 1;
                }
            },
            (Some(OneOrMany::One(_)), Some(OneOrMany::One(h))) => {
                r.push(Some(h.clone()));
            },
            (Some(OneOrMany::Many(_)), Some(OneOrMany::Many(hs))) => {
                let ghost hv = hs.deep_view();
                let mut i: usize = 0;
                while i < hs.len()
                    invariant
                        0 <= i <= hs.len(),
                        hv == hs.deep_view(),
                        hv.len() == hs.len(),
                        r.deep_view() =~= hv.take(i as int).map_values(
                            |h: Seq<char>| Some(h),
                        ),
                    decreases hs.len() - i,
                {
                    let ghost prev = r.deep_view();
                    r.push(Some(hs[i].clone()));
                    proof {
                        assert(r.deep_view() =~= prev.push(Some(hv[i as int])));
                        assert(hv.take(i + 1).map_values(|h: Seq<char>| Some(h)) =~= hv.take(
                            i as int,
                        ).map_values(|h: Seq<char>| Some(h)).push(Some(hv[i as int])));
                    }
                    i = i + 1;
                }
                proof {
                    assert(hv.take(hs.len() as int) =~= hv);
                }
            },
            (Some(OneOrMany::One(_)), Some(OneOrMany::Many(_))) => {},
            (Some(OneOrMany::Many(_)), Some(OneOrMany::One(_))) => {},
        }
        proof {
            assert(r.deep_view() =~= spec_hashes(self.deep_view()));
        }
        r
    }
}

/// What parsing finds in a serialized manifest: each typed field under its
/// own key, and nothing of the typed set hiding among the extras.
proof fn lemma_serialize_lookups(m: ManifestV, k: Seq<char>)
    requires
        manifest_wf(m),
        reserved_key(k),
    ensures
        doc_lookup(spec_serialize(m), k) == (if k == "version"@ {
            Some(ItemV::Str(m.version))
        } else if k == "description"@ {
            Some(ItemV::Str(m.description))
        } else if k == "homepage"@ {
            Some(ItemV::Str(m.homepage))
        } else if k == "license"@ {
            Some(serialize_license(m.license))
        } else if k == "url"@ {
            match m.url {
                Some(x) => Some(serialize_oom(x)),
                None => None,
            }
        } else {
            match m.hash {
                Some(x) => Some(serialize_oom(x)),
                None => None,
            }
        }),
{
    reveal_strlit("version");
    reveal_strlit("description");
    reveal_strlit("homepage");
    reveal_strlit("license");
    reveal_strlit("url");
    reveal_strlit("hash");
    reveal_with_fuel(doc_lookup, 7);
    let p = seq![
        ("version"@, ItemV::Str(m.version)),
        ("description"@, ItemV::Str(m.description)),
        ("homepage"@, ItemV::Str(m.homepage)),
        ("license"@, serialize_license(m.license)),
    ];
    let u = oom_field("url"@, m.url);
    let h = oom_field("hash"@, m.hash);
    lemma_lookup_concat(p + u + h, m.extras, k);
    lemma_lookup_concat(p + u, h, k);
    lemma_lookup_concat(p, u, k);
    assert("version"@.len() == 7);
    assert("description"@.len() == 11);
    assert("homepage"@.len() == 8);
    assert("license"@.len() == 7);
    assert("url"@.len() == 3);
    assert("hash"@.len() == 4);
    assert("version"@[0] == 'v' && "license"@[0] == 'l');
    assert("version"@ != "license"@);
    let p1 = seq![
        ("description"@, ItemV::Str(m.description)),
        ("homepage"@, ItemV::Str(m.homepage)),
        ("license"@, serialize_license(m.license)),
    ];
    let p2 = seq![("homepage"@, ItemV::Str(m.homepage)), ("license"@, serialize_license(m.license))];
    let p3 = seq![("license"@, serialize_license(m.license))];
    assert(p.drop_first() =~= p1);
    assert(p1.drop_first() =~= p2);
    assert(p2.drop_first() =~= p3);
    assert(p3.drop_first() =~= Seq::<(Seq<char>, ItemV)>::empty());
    if u.len() > 0 {
        assert(u.drop_first() =~= Seq::<(Seq<char>, ItemV)>::empty());
    }
    if h.len() > 0 {
        assert(h.drop_first() =~= Seq::<(Seq<char>, ItemV)>::empty());
    }
    assert forall|i: int| 0 <= i < m.extras.len() implies (#[trigger] m.extras[i].0) != k by {
        assert(!reserved_key(m.extras[i].0));
    }
    lemma_lookup_absent(m.extras, k);
}

/// Serializing a well-formed manifest and parsing the result gives the
/// manifest back: no field is lost, reshaped or invented.
#[verifier::rlimit(60)]
pub proof fn lemma_parse_inverts_serialize(m: ManifestV)
    requires
        manifest_wf(m),
    ensures
        spec_parse(spec_serialize(m)) == Some(m),
{
    reveal_strlit("version");
    reveal_strlit("description");
    reveal_strlit("homepage");
    reveal_strlit("license");
    reveal_strlit("url");
    reveal_strlit("hash");
    let s = spec_serialize(m);
    assert("version"@.len() == 7);
    assert("description"@.len() == 11);
    assert("homepage"@.len() == 8);
    assert("license"@.len() == 7);
    assert("url"@.len() == 3);
    assert("hash"@.len() == 4);
    assert("version"@[0] == 'v' && "license"@[0] == 'l');
    lemma_serialize_lookups(m, "version"@);
    lemma_serialize_lookups(m, "description"@);
    lemma_serialize_lookups(m, "homepage"@);
    lemma_serialize_lookups(m, "license"@);
    lemma_serialize_lookups(m, "url"@);
    lemma_serialize_lookups(m, "hash"@);
    let p = seq![
        ("version"@, ItemV::Str(m.version)),
        ("description"@, ItemV::Str(m.description)),
        ("homepage"@, ItemV::Str(m.homepage)),
        ("license"@, serialize_license(m.license)),
    ];
    let u = oom_field("url"@, m.url);
    let h = oom_field("hash"@, m.hash);
    lemma_extras_concat(p + u + h, m.extras);
    lemma_extras_concat(p + u, h);
    lemma_extras_concat(p, u);
    reveal_with_fuel(doc_extras, 7);
    let p1 = seq![
        ("description"@, ItemV::Str(m.description)),
        ("homepage"@, ItemV::Str(m.homepage)),
        ("license"@, serialize_license(m.license)),
    ];
    let p2 = seq![("homepage"@, ItemV::Str(m.homepage)), ("license"@, serialize_license(m.license))];
    let p3 = seq![("license"@, serialize_license(m.license))];
    assert(p.drop_first() =~= p1);
    assert(p1.drop_first() =~= p2);
    assert(p2.drop_first() =~= p3);
    assert(p3.drop_first() =~= Seq::<(Seq<char>, ItemV)>::empty());
    assert(doc_extras(p3) =~= Seq::<(Seq<char>, ItemV)>::empty());
    assert(doc_extras(p2) =~= Seq::<(Seq<char>, ItemV)>::empty());
    assert(doc_extras(p1) =~= Seq::<(Seq<char>, ItemV)>::empty());
    assert(doc_extras(p) =~= Seq::<(Seq<char>, ItemV)>::empty());
    if u.len() > 0 {
        assert(u.drop_first() =~= Seq::<(Seq<char>, ItemV)>::empty());
    }
    if h.len() > 0 {
        assert(h.drop_first() =~= Seq::<(Seq<char>, ItemV)>::empty());
    }
    assert(doc_extras(u) =~= Seq::<(Seq<char>, ItemV)>::empty());
    assert(doc_extras(h) =~= Seq::<(Seq<char>, ItemV)>::empty());
    lemma_extras_id(m.extras);
    assert(doc_extras(s) =~= m.extras);
    assert(spec_parse(s)->Some_0 =~= m);
}

/// Parsing only ever yields well-formed manifests.
pub proof fn lemma_parse_wf(d: Seq<(Seq<char>, ItemV)>)
    requires
        spec_parse(d) is Some,
    ensures
        manifest_wf(spec_parse(d)->Some_0),
{
    lemma_extras_keys(d);
}

/// Round trip: on any document that parses, parse then serialize then parse
/// again gives back exactly the first parse — every field that was present
/// is still present, with the same shape and value.
pub proof fn lemma_parse_serialize_parse(d: Seq<(Seq<char>, ItemV)>)
    requires
        spec_parse(d) is Some,
    ensures
        spec_parse(spec_serialize(spec_parse(d)->Some_0)) == spec_parse(d),
{
    lemma_parse_wf(d);
    lemma_parse_inverts_serialize(spec_parse(d)->Some_0);
}

} // verus!
