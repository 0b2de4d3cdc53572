//! The change cache: drops file notifications whose file has not changed
//! since it was last seen.
use vstd::prelude::*;

verus! {

/// What is observed of a file: modification time and size in bytes.
#[derive(Clone, Copy, PartialEq, Eq, Debug, Structural)]
pub struct FileMetadata {
    pub modified_secs: u64,
    pub modified_nanos: u32,
    pub size: u64,
}

/// The last snapshot recorded for each path.
pub struct FileCache {
    paths: Vec<String>,
    snapshots: Vec<FileMetadata>,
}

/// One notification for `p`, observed as `m` (`None`: the file is gone),
/// against the recorded snapshots `c`: the snapshots afterwards, and whether
/// `p` is to be processed.
pub open spec fn observe_step(
    c: Map<Seq<char>, FileMetadata>,
    p: Seq<char>,
    m: Option<FileMetadata>,
) -> (Map<Seq<char>, FileMetadata>, bool) {
    match m {
        None => (c, false),
        Some(meta) => if c.contains_key(p) && c[p] == meta {
            (c, false)
        } else {
            (c.insert(p, meta), true)
        },
    }
}

/// A batch of notifications taken in order: the snapshots afterwards and
/// the paths to process, in the order they came.
pub open spec fn observe_all(
    c: Map<Seq<char>, FileMetadata>,
    ps: Seq<Seq<char>>,
    ms: Seq<Option<FileMetadata>>,
) -> (Map<Seq<char>, FileMetadata>, Seq<Seq<char>>)
    recommends
        ps.len() == ms.len(),
    decreases ps.len(),
{
    if ps.len() == 0 || ms.len() == 0 {
        (c, Seq::empty())
    } else {
        let (c0, out) = observe_all(c, ps.drop_last(), ms.drop_last());
        let (c1, fresh) = observe_step(c0, ps.last(), ms.last());
        if fresh {
            (c1, out.push(ps.last()))
        } else {
            (c1, out)
        }
    }
}

impl FileCache {
    pub closed spec fn wf(&self) -> bool {
        &&& self.paths.len() == self.snapshots.len()
        &&& forall|i: int, j: int|
            0 <= i < j < self.paths.len() ==> #[trigger] self.paths[i]@ != #[trigger] self.paths[j]@
    }

    /// The recorded snapshot of each path seen so far.
    pub closed spec fn view(&self) -> Map<Seq<char>, FileMetadata> {
        Map::new(
            |k: Seq<char>| exists|i: int| 0 <= i < self.paths.len() && self.paths[i]@ == k,
            |k: Seq<char>|
                self.snapshots[choose|i: int| 0 <= i < self.paths.len() && self.paths[i]@ == k],
        )
    }

    /// An empty cache.
    pub fn new() -> (r: FileCache)
        ensures
            r.wf(),
            r.view() == Map::<Seq<char>, FileMetadata>::empty(),
    {
        let r = FileCache { paths: Vec::new(), snapshots: Vec::new() };
        assert(r.view() =~= Map::<Seq<char>, FileMetadata>::empty());
        r
    }

    fn index_of(&self, path: &String) -> (r: Option<usize>)
        requires
            self.wf(),
        ensures
            match r {
                None => !self.view().contains_key(path@),
                Some(i) => i < self.paths.len() && self.paths[i as int]@ == path@,
            },
    {
        let mut i: usize = 0;
        while i < self.paths.len()
            invariant
                self.wf(),
                i <= self.paths.len(),
                forall|j: int| 0 <= j < i ==> self.paths[j]@ != path@,
            decreases self.paths.len() - i,
        {
            if self.paths[i] == *path {
                return Some(i);
            }
            i = i + 1;
        }
        None
    }

    proof fn lemma_lookup(&self, i: int)
        requires
            self.wf(),
            0 <= i < self.paths.len(),
        ensures
            self.view().contains_key(self.paths[i]@),
            self.view()[self.paths[i]@] == self.snapshots[i],
    {
        let k = self.paths[i]@;
        assert(self.view().contains_key(k));
        let j = choose|j: int| 0 <= j < self.paths.len() && self.paths[j]@ == k;
        assert(i == j) by {
            if i < j {
                assert(self.paths[i]@ != self.paths[j]@);
            } else if j < i {
                assert(self.paths[j]@ != self.paths[i]@);
            }
        }
    }

    /// Records one notification for `path`, observed as `meta` (`None`
    /// when the file can no longer be read); returns whether the path is new
    /// or changed and so is to be processed.
    pub fn observe(&mut self, path: &String, meta: Option<FileMetadata>) -> (fresh: bool)
        requires
            old(self).wf(),
        ensures
            final(self).wf(),
            (final(self).view(), fresh) == observe_step(old(self).view(), path@, meta),
    {
        match meta {
            None => false,
            Some(m) => {
                match self.index_of(path) {
                    Some(i) => {
                        proof {
                            self.lemma_lookup(i as int);
                        }
                        if self.snapshots[i] == m {
                            false
                        } else {
                            let ghost before = *self;
                            self.snapshots.set(i, m);
                            proof {
                                let k = path@;
                                assert forall|q: Seq<char>| #[trigger]
                                    self.view().contains_key(q) && q != k implies self.view()[q]
                                    == before.view()[q] by {
                                    {
                                        let j = choose|j: int|
                                            0 <= j < self.paths.len() && self.paths[j]@ == q;
                                        self.lemma_lookup(j);
                                        before.lemma_lookup(j);
                                    }
                                }
                                self.lemma_lookup(i as int);
                                assert(self.view() =~= before.view().insert(k, m));
                            }
                            true
                        }
                    },
                    None => {
                        let ghost before = *self;
                        self.paths.push(path.clone());
                        self.snapshots.push(m);
                        proof {
                            let k = path@;
                            let n = before.paths.len() as int;
                            assert forall|q: Seq<char>| #[trigger]
                                self.view().contains_key(q) && q != k implies
                                before.view().contains_key(q) && self.view()[q]
                                == before.view()[q] by {
                                {
                                    let j = choose|j: int|
                                        0 <= j < self.paths.len() && self.paths[j]@ == q;
                                    self.lemma_lookup(j);
                                    before.lemma_lookup(j);
                                }
                            }
                            assert forall|q: Seq<char>| #[trigger]
                                before.view().contains_key(q) implies self.view().contains_key(
                                q) by {
                                let j = choose|j: int|
                                    0 <= j < before.paths.len() && before.paths[j]@ == q;
                                assert(self.paths[j]@ == q);
                            }
                            self.lemma_lookup(n);
                            assert(self.view() =~= before.view().insert(k, m));
                        }
                        true
                    },
                }
            },
        }
    }

    /// Takes one batch of notifications in the order they came, with what
    /// was observed of each file, and returns the paths that are new or
    /// changed, in that order.
    pub fn filter_new_files(
        &mut self,
        paths: &Vec<String>,
        observed: &Vec<Option<FileMetadata>>,
    ) -> (fresh: Vec<String>)
        requires
            old(self).wf(),
            paths.len() == observed.len(),
        ensures
            final(self).wf(),
            (final(self).view(), fresh@.map_values(|p: String| p@)) == observe_all(
                old(self).view(),
                paths@.map_values(|p: String| p@),
                observed@,
            ),
    {
        let ghost c0 = self.view();
        let ghost ps = paths@.map_values(|p: String| p@);
        let mut fresh: Vec<String> = Vec::new();
        let mut i: usize = 0;
        while i < paths.len()
            invariant
                self.wf(),
                i <= paths.len(),
                paths.len() == observed.len(),
                ps == paths@.map_values(|p: String| p@),
                (self.view(), fresh@.map_values(|p: String| p@)) == observe_all(
                    c0,
                    ps.subrange(0, i as int),
                    observed@.subrange(0, i as int),
                ),
            decreases paths.len() - i,
        {
            proof {
                assert(ps.subrange(0, i as int + 1).drop_last() =~= ps.subrange(0, i as int));
                assert(observed@.subrange(0, i as int + 1).drop_last() =~= observed@.subrange(
                    0,
                    i as int,
                ));
            }
            let ghost before = fresh@.map_values(|p: String| p@);
            if self.observe(&paths[i], observed[i]) {
                fresh.push(paths[i].clone());
                assert(fresh@.map_values(|p: String| p@) =~= before.push(paths[i as int]@));
            }
            i = i + 1;
        }
        assert(ps.subrange(0, i as int) =~= ps);
        assert(observed@.subrange(0, i as int) =~= observed@);
        fresh
    }
}

/// A notification for a file whose snapshot is already recorded is
/// dropped and changes nothing.
pub proof fn law_unchanged_file_dropped(
    c: Map<Seq<char>, FileMetadata>,
    p: Seq<char>,
    m: FileMetadata,
)
    requires
        c.contains_key(p),
        c[p] == m,
    ensures
        observe_step(c, p, Some(m)) == (c, false),
{
}

/// Once a snapshot is recorded, the same notification again is dropped.
pub proof fn law_repeat_notification_dropped(
    c: Map<Seq<char>, FileMetadata>,
    p: Seq<char>,
    m: FileMetadata,
)
    ensures
        ({
            let (c1, _) = observe_step(c, p, Some(m));
            observe_step(c1, p, Some(m)) == (c1, false)
        }),
{
}

/// A burst of identical notifications for one file yields that file at
/// most once.
pub proof fn law_identical_burst_yields_once(
    c: Map<Seq<char>, FileMetadata>,
    p: Seq<char>,
    m: FileMetadata,
    n: nat,
)
    ensures
        observe_all(c, Seq::new(n, |i: int| p), Seq::new(n, |i: int| Some(m))).1.len() <= 1,
        n > 0 ==> observe_all(c, Seq::new(n, |i: int| p), Seq::new(n, |i: int| Some(m))).0.contains_key(p),
        n > 0 ==> observe_all(c, Seq::new(n, |i: int| p), Seq::new(n, |i: int| Some(m))).0[p] == m,
        n > 0 && c.contains_key(p) && c[p] == m ==> observe_all(c, Seq::new(n, |i: int| p), Seq::new(n, |i: int| Some(m))).1.len() == 0,
    decreases n,
{
    if n > 0 {
        let ps = Seq::new(n, |i: int| p);
        let ms = Seq::new(n, |i: int| Some(m));
        assert(ps.drop_last() =~= Seq::new((n - 1) as nat, |i: int| p));
        assert(ms.drop_last() =~= Seq::new((n - 1) as nat, |i: int| Some(m)));
        law_identical_burst_yields_once(c, p, m, (n - 1) as nat);
    }
}

} // verus!
