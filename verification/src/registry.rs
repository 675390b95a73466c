//! The in-memory registry: named buckets, each mapping app names to
//! manifests. Built once from synchronized bucket storage, read-only
//! thereafter. Iteration order is the insertion order, so lookups across
//! buckets are deterministic for a given registry.

use crate::manifest::{Manifest, ManifestV};
use vstd::prelude::*;

verus! {

/// One bucket: app name to manifest, names unique within the bucket.
#[derive(Debug)]
pub struct Bucket(pub Vec<(String, Manifest)>);

/// All buckets of one run, by bucket name, names unique.
#[derive(Debug)]
pub struct Buckets(pub Vec<(String, Bucket)>);

impl DeepView for Bucket {
    type V = Seq<(Seq<char>, ManifestV)>;

    open spec fn deep_view(&self) -> Seq<(Seq<char>, ManifestV)> {
        self.0.deep_view()
    }
}

impl DeepView for Buckets {
    type V = Seq<(Seq<char>, Seq<(Seq<char>, ManifestV)>)>;

    open spec fn deep_view(&self) -> Seq<(Seq<char>, Seq<(Seq<char>, ManifestV)>)> {
        self.0.deep_view()
    }
}

/// The value under the first occurrence of `k` in an association list.
pub open spec fn assoc_first<V>(d: Seq<(Seq<char>, V)>, k: Seq<char>) -> Option<V>
    decreases d.len(),
{
    if d.len() == 0 {
        None
    } else if d[0].0 == k {
        Some(d[0].1)
    } else {
        assoc_first(d.drop_first(), k)
    }
}

/// First-match lookup of an app across buckets, in registry order.
pub open spec fn spec_get_app(
    bs: Seq<(Seq<char>, Seq<(Seq<char>, ManifestV)>)>,
    app: Seq<char>,
) -> Option<ManifestV>
    decreases bs.len(),
{
    if bs.len() == 0 {
        None
    } else {
        match assoc_first(bs[0].1, app) {
            Some(m) => Some(m),
            None => spec_get_app(bs.drop_first(), app),
        }
    }
}

/// Exact-bucket lookup: the manifest under `app` in the bucket named
/// `bucket`, if both exist.
pub open spec fn spec_get_app_from(
    bs: Seq<(Seq<char>, Seq<(Seq<char>, ManifestV)>)>,
    app: Seq<char>,
    bucket: Seq<char>,
) -> Option<ManifestV> {
    match assoc_first(bs, bucket) {
        None => None,
        Some(b) => assoc_first(b, app),
    }
}

/// Registry invariant: bucket names are unique.
pub open spec fn registry_wf(bs: Seq<(Seq<char>, Seq<(Seq<char>, ManifestV)>)>) -> bool {
    forall|i: int, j: int| 0 <= i < j < bs.len() ==> bs[i].0 != bs[j].0
}

proof fn lemma_skip_step<T>(s: Seq<T>, i: int)
    requires
        0 <= i < s.len(),
    ensures
        s.skip(i).drop_first() =~= s.skip(i + 1),
        s.skip(i).len() == s.len() - i,
        s.skip(i)[0] == s[i],
{
}

/// The manifest under `app` in this bucket, if any.
fn bucket_get<'a>(b: &'a Bucket, app: &String) -> (r: Option<&'a Manifest>)
    ensures
        match r {
            Some(m) => assoc_first(b.deep_view(), app@) == Some(m.deep_view()),
            None => assoc_first(b.deep_view(), app@) is None,
        },
{
    let ghost bv = b.deep_view();
    proof {
        assert(bv.skip(0) =~= bv);
    }
    let mut i: usize = 0;
    while i < b.0.len()
        invariant
            0 <= i <= b.0.len(),
            bv == b.deep_view(),
            bv.len() == b.0.len(),
            assoc_first(bv, app@) == assoc_first(bv.skip(i as int), app@),
        decreases b.0.len() - i,
    {
        proof {
            lemma_skip_step(bv, i as int);
        }
        if b.0[i].0 == *app {
            return Some(&b.0[i].1);
        }
        i = i + 1;
    }
    proof {
        assert(bv.skip(b.0.len() as int) =~= Seq::<(Seq<char>, ManifestV)>::empty());
    }
    None
}

impl Buckets {
    /// Exact bucket lookup; "not found" is unambiguous.
    pub fn get_app_from(&self, app_name: &str, bucket_name: &str) -> (r: Option<&Manifest>)
        ensures
            match r {
                Some(m) => spec_get_app_from(self.deep_view(), app_name@, bucket_name@) == Some(
                    m.deep_view(),
                ),
                None => spec_get_app_from(self.deep_view(), app_name@, bucket_name@) is None,
            },
    {
        let ghost bsv = self.deep_view();
        let bname: String = bucket_name.to_owned();
        let aname: String = app_name.to_owned();
        proof {
            assert(bsv.skip(0) =~= bsv);
        }
        let mut i: usize = 0;
        while i < self.0.len()
            invariant
                0 <= i <= self.0.len(),
                bsv == self.deep_view(),
                bsv.len() == self.0.len(),
                bname@ == bucket_name@,
                aname@ == app_name@,
                assoc_first(bsv, bucket_name@) == assoc_first(bsv.skip(i as int), bucket_name@),
            decreases self.0.len() - i,
        {
            proof {
                lemma_skip_step(bsv, i as int);
            }
            if self.0[i].0 == bname {
                return bucket_get(&self.0[i].1, &aname);
            }
            i = i + 1;
        }
        proof {
            assert(bsv.skip(self.0.len() as int) =~= Seq::<
                (Seq<char>, Seq<(Seq<char>, ManifestV)>),
            >::empty());
        }
        None
    }

    /// First-match lookup across all buckets, in registry order. When several
    /// buckets publish the same name, the first wins; this ambiguity policy
    /// is deliberate and documented rather than an error.
    pub fn get_app(&self, app_name: &str) -> (r: Option<&Manifest>)
        ensures
            match r {
                Some(m) => spec_get_app(self.deep_view(), app_name@) == Some(m.deep_view()),
                None => spec_get_app(self.deep_view(), app_name@) is None,
            },
    {
        let ghost bsv = self.deep_view();
        let aname: String = app_name.to_owned();
        proof {
            assert(bsv.skip(0) =~= bsv);
        }
        let mut i: usize = 0;
        while i < self.0.len()
            invariant
                0 <= i <= self.0.len(),
                bsv == self.deep_view(),
                bsv.len() == self.0.len(),
                aname@ == app_name@,
                spec_get_app(bsv, app_name@) == spec_get_app(bsv.skip(i as int), app_name@),
            decreases self.0.len() - i,
        {
            proof {
                lemma_skip_step(bsv, i as int);
            }
            let found = bucket_get(&self.0[i].1, &aname);
            if let Some(m) = found {
                return Some(m);
            }
            i = i + 1;
        }
        proof {
            assert(bsv.skip(self.0.len() as int) =~= Seq::<
                (Seq<char>, Seq<(Seq<char>, ManifestV)>),
            >::empty());
        }
        None
    }
}

/// One line pair of the human-oriented listing: `app/bucket  vVERSION`,
/// then the description indented beneath it.
pub open spec fn spec_entry_lines(
    app: Seq<char>,
    bucket: Seq<char>,
    version: Seq<char>,
    description: Seq<char>,
) -> Seq<char> {
    app + "/"@ + bucket + "  v"@ + version + "\n  "@ + description + "\n"@
}

/// The listing of one bucket, in app order.
pub open spec fn spec_bucket_listing(bucket: Seq<char>, apps: Seq<(Seq<char>, ManifestV)>) -> Seq<
    char,
>
    decreases apps.len(),
{
    if apps.len() == 0 {
        Seq::empty()
    } else {
        spec_bucket_listing(bucket, apps.drop_last()) + spec_entry_lines(
            apps.last().0,
            bucket,
            apps.last().1.version,
            apps.last().1.description,
        )
    }
}

/// The whole registry listing, bucket by bucket in registry order.
pub open spec fn spec_listing(bs: Seq<(Seq<char>, Seq<(Seq<char>, ManifestV)>)>) -> Seq<char>
    decreases bs.len(),
{
    if bs.len() == 0 {
        Seq::empty()
    } else {
        spec_listing(bs.drop_last()) + spec_bucket_listing(bs.last().0, bs.last().1)
    }
}

fn bucket_listing(bucket: &String, b: &Bucket) -> (r: String)
    ensures
        r@ == spec_bucket_listing(bucket@, b.deep_view()),
{
    let ghost bv = b.deep_view();
    let mut out: String = String::new();
    let mut i: usize = 0;
    proof {
        assert(bv.take(0) =~= Seq::<(Seq<char>, ManifestV)>::empty());
    }
    while i < b.0.len()
        invariant
            0 <= i <= b.0.len(),
            bv == b.deep_view(),
            bv.len() == b.0.len(),
            out@ == spec_bucket_listing(bucket@, bv.take(i as int)),
        decreases b.0.len() - i,
    {
        out.append(b.0[i].0.as_str());
        out.append("/");
        out.append(bucket.as_str());
        out.append("  v");
        out.append(b.0[i].1.version.as_str());
        out.append("\n  ");
        out.append(b.0[i].1.description.as_str());
        out.append("\n");
        proof {
            assert(bv.take(i + 1).drop_last() =~= bv.take(i as int));
            assert(bv.take(i + 1).last() == bv[i as int]);
        }
        i = i + 1;
    }
    proof {
        assert(bv.take(b.0.len() as int) =~= bv);
    }
    out
}

impl Buckets {
    /// The human-oriented listing of every (app, bucket, version,
    /// description) entry, order-stable for a given registry. Pure
    /// formatting: the registry is not touched.
    pub fn listing(&self) -> (r: String)
        ensures
            r@ == spec_listing(self.deep_view()),
    {
        let ghost bsv = self.deep_view();
        let mut out: String = String::new();
        let mut i: usize = 0;
        proof {
            assert(bsv.take(0) =~= Seq::<(Seq<char>, Seq<(Seq<char>, ManifestV)>)>::empty());
        }
        while i < self.0.len()
            invariant
                0 <= i <= self.0.len(),
                bsv == self.deep_view(),
                bsv.len() == self.0.len(),
                out@ == spec_listing(bsv.take(i as int)),
            decreases self.0.len() - i,
        {
            let part = bucket_listing(&self.0[i].0, &self.0[i].1);
            out.append(part.as_str());
            proof {
                assert(bsv.take(i + 1).drop_last() =~= bsv.take(i as int));
                assert(bsv.take(i + 1).last() == bsv[i as int]);
            }
            i = i + 1;
        }
        proof {
            assert(bsv.take(self.0.len() as int) =~= bsv);
        }
        out
    }
}

/// For an app that exactly one bucket publishes, the cross-bucket lookup and
/// the exact-bucket lookup return the same manifest.
pub proof fn lemma_get_app_agrees_on_unique(
    bs: Seq<(Seq<char>, Seq<(Seq<char>, ManifestV)>)>,
    app: Seq<char>,
    bucket: Seq<char>,
)
    requires
        registry_wf(bs),
        assoc_first(bs, bucket) is Some,
        assoc_first(assoc_first(bs, bucket)->Some_0, app) is Some,
        forall|j: int|
            0 <= j < bs.len() && bs[j].0 != bucket ==> assoc_first(#[trigger] bs[j].1, app) is None,
    ensures
        spec_get_app(bs, app) == spec_get_app_from(bs, app, bucket),
    decreases bs.len(),
{
    if bs[0].0 == bucket {
        assert(assoc_first(bs, bucket) == Some(bs[0].1));
    } else {
        assert(assoc_first(bs[0].1, app) is None);
        let rest = bs.drop_first();
        assert forall|j: int|
            0 <= j < rest.len() && rest[j].0 != bucket implies assoc_first(
            #[trigger] rest[j].1,
            app,
        ) is None by {
            assert(rest[j] == bs[j + 1]);
        }
        assert forall|i: int, j: int| 0 <= i < j < rest.len() implies rest[i].0 != rest[j].0 by {
            assert(rest[i] == bs[i + 1] && rest[j] == bs[j + 1]);
        }
        lemma_get_app_agrees_on_unique(rest, app, bucket);
    }
}

/// For an app that no bucket publishes, the cross-bucket lookup finds
/// nothing — and plan derivation, whose contract keys on this lookup,
/// therefore reports the name as not found.
pub proof fn lemma_get_app_absent(
    bs: Seq<(Seq<char>, Seq<(Seq<char>, ManifestV)>)>,
    app: Seq<char>,
)
    requires
        forall|j: int| 0 <= j < bs.len() ==> assoc_first(#[trigger] bs[j].1, app) is None,
    ensures
        spec_get_app(bs, app) is None,
    decreases bs.len(),
{
    if bs.len() > 0 {
        let rest = bs.drop_first();
        assert forall|j: int| 0 <= j < rest.len() implies assoc_first(
            #[trigger] rest[j].1,
            app,
        ) is None by {
            assert(rest[j] == bs[j + 1]);
        }
        lemma_get_app_absent(rest, app);
    }
}

} // verus!
