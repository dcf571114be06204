//! The content-addressed store: the pure placement rule that maps a
//! content hash and an extension to a sharded path, and a model of which
//! blobs the store holds. The caller mirrors every change of the model
//! onto the real directory tree.

use vstd::prelude::*;
use vstd::string::*;
use crate::text::push_char;

verus! {

/// The shard key: the first two characters of the hash, or all of it
/// when the hash is shorter.
pub open spec fn shard_prefix_spec(hash: Seq<char>) -> Seq<char> {
    if hash.len() < 2 {
        hash
    } else {
        hash.subrange(0, 2)
    }
}

/// Where a blob with this hash and extension lives:
/// `{root}/{shard}/{hash}{extension}`. The extension carries its
/// leading dot.
pub open spec fn storage_path_spec(root: Seq<char>, hash: Seq<char>, ext: Seq<char>) -> Seq<char> {
    root.push('/') + shard_prefix_spec(hash) + seq!['/'] + hash + ext
}

/// Computes the storage path of a blob. Pure: the result is a function
/// of the arguments alone, so two calls on the same arguments agree.
pub fn get_image_storage_path(images_dir: &str, hash: &str, extension: &str) -> (r: String)
    ensures
        r@ == storage_path_spec(images_dir@, hash@, extension@),
{
    let hn = hash.unicode_len();
    let shard = if hn < 2 {
        hash.to_owned()
    } else {
        hash.substring_char(0, 2).to_owned()
    };
    let mut s = images_dir.to_owned();
    push_char(&mut s, '/');
    s.append(shard.as_str());
    push_char(&mut s, '/');
    s.append(hash);
    s.append(extension);
    proof {
        assert(s@ =~= storage_path_spec(images_dir@, hash@, extension@));
    }
    s
}

/// Calling the placement rule twice on one `(hash, extension)` pair
/// yields one path: the rule is deterministic and takes no step besides
/// computing it.
pub proof fn lemma_storage_path_deterministic(
    root: Seq<char>,
    hash: Seq<char>,
    ext: Seq<char>,
    r1: Seq<char>,
    r2: Seq<char>,
)
    requires
        r1 == storage_path_spec(root, hash, ext),
        r2 == storage_path_spec(root, hash, ext),
    ensures
        r1 == r2,
{
}

/// The set of blob paths the store holds.
pub struct BlobStore {
    paths: Vec<String>,
}

impl BlobStore {
    /// The paths of the blobs present, one entry each.
    pub closed spec fn blobs(&self) -> Seq<Seq<char>> {
        self.paths@.map_values(|p: String| p@)
    }

    /// No path is listed twice.
    pub open spec fn wf(&self) -> bool {
        self.blobs().no_duplicates()
    }

    /// A blob lives at `p`.
    pub open spec fn spec_has(&self, p: Seq<char>) -> bool {
        self.blobs().contains(p)
    }

    /// An empty store.
    pub fn new() -> (r: BlobStore)
        ensures
            r.wf(),
            forall|q: Seq<char>| !r.spec_has(q),
    {
        let r = BlobStore { paths: Vec::new() };
        proof {
            assert(r.blobs() =~= Seq::<Seq<char>>::empty());
        }
        r
    }

    /// Whether a blob lives at `p`.
    pub fn has_blob(&self, p: &String) -> (b: bool)
        ensures
            b == self.spec_has(p@),
    {
        let n = self.paths.len();
        let mut i: usize = 0;
        while i < n
            invariant
                n == self.paths@.len(),
                0 <= i <= n,
                forall|t: int| 0 <= t < i ==> self.blobs()[t] != p@,
            decreases n - i,
        {
            if self.paths[i].eq(p) {
                assert(self.blobs()[i as int] == p@);
                return true;
            }
            assert(self.blobs()[i as int] != p@);
            i = i + 1;
        }
        assert(!self.spec_has(p@)) by {
            if self.blobs().contains(p@) {
                let w = choose|w: int| 0 <= w < self.blobs().len() && self.blobs()[w] == p@;
                assert(self.blobs()[w] != p@);
            }
        }
        false
    }

    /// Records a blob at `p`; placing over an existing blob changes
    /// nothing, as a copy of identical content would.
    pub fn place_blob(&mut self, p: &String)
        requires
            old(self).wf(),
        ensures
            final(self).wf(),
            final(self).spec_has(p@),
            forall|q: Seq<char>| q != p@ ==> (final(self).spec_has(q) == old(self).spec_has(q)),
    {
        if !self.has_blob(p) {
            let ghost pre = self.blobs();
            self.paths.push(p.clone());
            proof {
                assert(self.blobs() =~= pre.push(p@));
                assert(self.blobs()[pre.len() as int] == p@);
                assert(self.spec_has(p@));
                assert forall|q: Seq<char>| q != p@ implies (self.spec_has(q) == pre.contains(
                    q,
                )) by {
                    if self.spec_has(q) {
                        let w = choose|w: int|
                            0 <= w < self.blobs().len() && self.blobs()[w] == q;
                        assert(w < pre.len());
                        assert(pre[w] == q);
                    }
                    if pre.contains(q) {
                        let w = choose|w: int| 0 <= w < pre.len() && pre[w] == q;
                        assert(self.blobs()[w] == q);
                    }
                }
                assert forall|a: int, b: int|
                    0 <= a < b < self.blobs().len() implies self.blobs()[a]
                    != self.blobs()[b] by {
                    if b < pre.len() {
                        assert(pre[a] != pre[b]);
                    } else {
                        assert(self.blobs()[b] == p@);
                        assert(!pre.contains(p@));
                        assert(pre[a] == self.blobs()[a]);
                        if pre[a] == p@ {
                            assert(pre.contains(p@));
                        }
                    }
                }
            }
        }
    }

    /// Removes the blob at `p`, if one is present.
    pub fn remove_blob(&mut self, p: &String)
        requires
            old(self).wf(),
        ensures
            final(self).wf(),
            !final(self).spec_has(p@),
            forall|q: Seq<char>| q != p@ ==> (final(self).spec_has(q) == old(self).spec_has(q)),
    {
        let n = self.paths.len();
        let mut i: usize = 0;
        while i < n
            invariant
                old(self) == self,
                old(self).wf(),
                n == self.paths@.len(),
                0 <= i <= n,
                forall|t: int| 0 <= t < i ==> self.blobs()[t] != p@,
            decreases n - i,
        {
            if self.paths[i].eq(p) {
                assert(self.blobs()[i as int] == p@);
                let ghost pre = self.blobs();
                self.paths.remove(i);
                proof {
                    assert(self.blobs() =~= pre.remove(i as int));
                    assert forall|a: int, b: int|
                        0 <= a < b < self.blobs().len() implies self.blobs()[a]
                        != self.blobs()[b] by {
                        let a2 = if a < i { a } else { a + 1 };
                        let b2 = if b < i { b } else { b + 1 };
                        assert(self.blobs()[a] == pre[a2]);
                        assert(self.blobs()[b] == pre[b2]);
                    }
                    assert(!self.spec_has(p@)) by {
                        if self.spec_has(p@) {
                            let w = choose|w: int|
                                0 <= w < self.blobs().len() && self.blobs()[w] == p@;
                            let w2 = if w < i { w } else { w + 1 };
                            assert(pre[w2] == p@);
                            assert(pre[i as int] == p@);
                        }
                    }
                    assert forall|q: Seq<char>| q != p@ implies (self.spec_has(q) == pre.contains(
                        q,
                    )) by {
                        if self.spec_has(q) {
                            let w = choose|w: int|
                                0 <= w < self.blobs().len() && self.blobs()[w] == q;
                            let w2 = if w < i { w } else { w + 1 };
                            assert(pre[w2] == q);
                        }
                        if pre.contains(q) {
                            let w = choose|w: int| 0 <= w < pre.len() && pre[w] == q;
                            if w < i {
                                assert(self.blobs()[w] == q);
                            } else if w > i {
                                assert(self.blobs()[w - 1] == q);
                            }
                        }
                    }
                }
                return ;
            }
            assert(self.blobs()[i as int] != p@);
            i = i + 1;
        }
        proof {
            assert(!self.spec_has(p@)) by {
                if self.blobs().contains(p@) {
                    let w = choose|w: int| 0 <= w < self.blobs().len() && self.blobs()[w] == p@;
                    assert(self.blobs()[w] != p@);
                }
            }
        }
    }
}

/// Distinct digests of the full hex length land at distinct paths: the
/// digest is embedded whole in the storage path, so two contents with
/// different digests never contend for one blob.
pub proof fn lemma_distinct_hashes_distinct_paths(
    root: Seq<char>,
    h1: Seq<char>,
    h2: Seq<char>,
    ext: Seq<char>,
)
    requires
        h1.len() == 64,
        h2.len() == 64,
        h1 != h2,
    ensures
        storage_path_spec(root, h1, ext) != storage_path_spec(root, h2, ext),
{
    let p1 = storage_path_spec(root, h1, ext);
    let p2 = storage_path_spec(root, h2, ext);
    let a1 = root.push('/') + h1.subrange(0, 2) + seq!['/'];
    let a2 = root.push('/') + h2.subrange(0, 2) + seq!['/'];
    assert(a1.len() == root.len() + 4);
    assert(a2.len() == root.len() + 4);
    assert(p1 =~= a1 + (h1 + ext));
    assert(p2 =~= a2 + (h2 + ext));
    if p1 == p2 {
        assert forall|i: int| 0 <= i < 64 implies h1[i] == h2[i] by {
            let off = root.len() + 4;
            assert(p1[off + i] == (a1 + (h1 + ext))[off + i]);
            assert((a1 + (h1 + ext))[off + i] == (h1 + ext)[i]);
            assert((h1 + ext)[i] == h1[i]);
            assert(p2[off + i] == (a2 + (h2 + ext))[off + i]);
            assert((a2 + (h2 + ext))[off + i] == (h2 + ext)[i]);
            assert((h2 + ext)[i] == h2[i]);
        }
        assert(h1 =~= h2);
    }
}

} // verus!
