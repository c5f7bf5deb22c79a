//! Images, the states of built images, the persistent cache of those states,
//! and the rules that decide when a cached image may be reused.
use vstd::prelude::*;
use crate::os::{clean_cache_spec, install_spec, manager_cmd, update_repos_spec, Os, PackageManager};
use crate::target::{RecipeTarget, RecipeTargetView};
use crate::text::{join, join_with, str_eq, views};

verus! {

/// The tag of an image built from its own Dockerfile.
pub open spec fn latest_tag() -> Seq<char> {
    "latest"@
}

/// The tag of an image built on top of a `latest` one with the build
/// dependencies installed.
pub open spec fn cached_tag() -> Seq<char> {
    "cached"@
}

/// An image known by name, with the host directory holding its Dockerfile.
#[derive(Debug)]
pub struct Image {
    pub name: String,
    pub path: String,
}

impl Image {
    /// The image `name` whose Dockerfile lies in `path`.
    pub fn new(name: &str, path: &str) -> (r: Image)
        ensures
            r.name@ == name@,
            r.path@ == path@,
    {
        Image { name: name.to_string(), path: path.to_string() }
    }

    /// A copy of this image.
    pub fn copy(&self) -> (r: Image)
        ensures
            r == *self,
    {
        Image { name: self.name.clone(), path: self.path.clone() }
    }
}

/// The images found in the images directory, by name; no two share a name.
#[derive(Debug)]
pub struct Images {
    images: Vec<Image>,
}

impl Images {
    /// The names of the images are distinct.
    pub closed spec fn wf(&self) -> bool {
        forall|i: int, j: int|
            0 <= i < j < self.images@.len() ==> self.images@[i].name@ != self.images@[j].name@
    }

    /// The images held.
    pub closed spec fn spec_images(&self) -> Seq<Image> {
        self.images@
    }

    /// No images.
    pub fn new() -> (r: Images)
        ensures
            r.wf(),
            r.spec_images().len() == 0,
    {
        Images { images: Vec::new() }
    }

    /// The images held, in the order they were added.
    pub fn images(&self) -> (r: &Vec<Image>)
        ensures
            r@ == self.spec_images(),
    {
        &self.images
    }

    /// Adds `image`, replacing one of the same name.
    pub fn insert(&mut self, image: Image)
        requires
            old(self).wf(),
        ensures
            final(self).wf(),
            exists|i: int|
                0 <= i < final(self).spec_images().len() && final(self).spec_images()[i]
                    == image,
            forall|i: int|
                0 <= i < old(self).spec_images().len() && old(self).spec_images()[i].name@
                    != image.name@ ==> final(self).spec_images().contains(
                    old(self).spec_images()[i],
                ),
            final(self).spec_images().len() <= old(self).spec_images().len() + 1,
    {
        let n = self.images.len();
        let mut i: usize = 0;
        while i < n
            invariant
                n == self.images@.len(),
                self.images@ == old(self).images@,
                old(self).wf(),
                i <= n,
                forall|k: int| 0 <= k < i ==> self.images@[k].name@ != image.name@,
            decreases n - i,
        {
            if str_eq(self.images[i].name.as_str(), image.name.as_str()) {
                let ghost before = self.images@;
                self.images.set(i, image);
                proof {
                    assert(self.images@[i as int] == image);
                    assert(self.spec_images()[i as int] == image);
                    assert forall|a: int, b: int|
                        0 <= a < b < self.images@.len() implies self.images@[a].name@
                        != self.images@[b].name@ by {
                        if a != i && b != i {
                            assert(self.images@[a] == before[a]);
                            assert(self.images@[b] == before[b]);
                        } else if a == i {
                            assert(self.images@[b] == before[b]);
                        } else {
                            assert(self.images@[a] == before[a]);
                        }
                    }
                    assert forall|k: int|
                        0 <= k < before.len() && before[k].name@ != image.name@ implies self.images@.contains(
                        before[k],
                    ) by {
                        assert(self.images@[k] == before[k]);
                    }
                }
                return;
            }
            i = i + 1;
        }
        let ghost before = self.images@;
        self.images.push(image);
        proof {
            assert(self.images@[n as int] == image);
            assert(self.spec_images()[n as int] == image);
            assert forall|a: int, b: int|
                0 <= a < b < self.images@.len() implies self.images@[a].name@
                != self.images@[b].name@ by {
                assert(self.images@[a] == before[a]);
                if b < n {
                    assert(self.images@[b] == before[b]);
                }
            }
            assert forall|k: int|
                0 <= k < before.len() && before[k].name@ != image.name@ implies self.images@.contains(
                before[k],
            ) by {
                assert(self.images@[k] == before[k]);
            }
        }
    }

    /// The image called `name`, if there is one.
    pub fn get(&self, name: &str) -> (r: Option<&Image>)
        ensures
            r matches Some(img) ==> img.name@ == name@ && self.spec_images().contains(*img),
            r.is_none() ==> forall|i: int|
                0 <= i < self.spec_images().len() ==> self.spec_images()[i].name@ != name@,
    {
        let n = self.images.len();
        let mut i: usize = 0;
        while i < n
            invariant
                n == self.images@.len(),
                i <= n,
                forall|k: int| 0 <= k < i ==> self.images@[k].name@ != name@,
            decreases n - i,
        {
            if str_eq(self.images[i].name.as_str(), name) {
                return Some(&self.images[i]);
            }
            i = i + 1;
        }
        None
    }
}

/// What is known of a built image: its engine id, its name and tag, its
/// operating system, when it was built (nanoseconds since the Unix epoch),
/// the dependencies installed into it, and whether it is one of the
/// automatically provided images.
#[derive(Debug)]
pub struct ImageState {
    pub id: String,
    pub image: String,
    pub tag: String,
    pub os: Os,
    pub timestamp: u128,
    pub deps: Vec<String>,
    pub simple: bool,
}

/// The set of package names in a list.
pub open spec fn dep_set(deps: Seq<String>) -> Set<Seq<char>> {
    views(deps).to_set()
}

/// A copy of a list of strings.
pub fn copy_strings(v: &Vec<String>) -> (r: Vec<String>)
    ensures
        r@ == v@,
{
    let mut out: Vec<String> = Vec::new();
    let mut i: usize = 0;
    while i < v.len()
        invariant
            i <= v@.len(),
            out@ == v@.subrange(0, i as int),
        decreases v@.len() - i,
    {
        out.push(v[i].clone());
        proof {
            assert(out@ =~= v@.subrange(0, i + 1));
        }
        i = i + 1;
    }
    proof {
        assert(v@.subrange(0, v@.len() as int) =~= v@);
    }
    out
}

/// Whether `v` holds a string with the characters of `s`.
pub fn contains_str(v: &Vec<String>, s: &str) -> (r: bool)
    ensures
        r == views(v@).contains(s@),
{
    let n = v.len();
    let mut i: usize = 0;
    while i < n
        invariant
            n == v@.len(),
            i <= n,
            forall|k: int| 0 <= k < i ==> v@[k]@ != s@,
        decreases n - i,
    {
        if str_eq(v[i].as_str(), s) {
            proof {
                assert(views(v@)[i as int] == s@);
            }
            return true;
        }
        i = i + 1;
    }
    proof {
        if views(v@).contains(s@) {
            let k = choose|k: int| 0 <= k < views(v@).len() && views(v@)[k] == s@;
            assert(v@[k]@ == s@);
        }
    }
    false
}

/// Whether every name in `a` is also in `b`.
pub fn all_in(a: &Vec<String>, b: &Vec<String>) -> (r: bool)
    ensures
        r == dep_set(a@).subset_of(dep_set(b@)),
{
    let n = a.len();
    let mut i: usize = 0;
    while i < n
        invariant
            n == a@.len(),
            i <= n,
            forall|k: int| 0 <= k < i ==> views(b@).contains(#[trigger] a@[k]@),
        decreases n - i,
    {
        if !contains_str(b, a[i].as_str()) {
            proof {
                assert(views(a@)[i as int] == a@[i as int]@);
                assert(dep_set(a@).contains(a@[i as int]@));
            }
            return false;
        }
        i = i + 1;
    }
    proof {
        assert forall|x: Seq<char>| dep_set(a@).contains(x) implies dep_set(b@).contains(x) by {
            let k = choose|k: int| 0 <= k < views(a@).len() && views(a@)[k] == x;
            assert(a@[k]@ == x);
        }
    }
    true
}

/// Whether two lists hold the same set of names.
pub fn same_deps(a: &Vec<String>, b: &Vec<String>) -> (r: bool)
    ensures
        r == (dep_set(a@) == dep_set(b@)),
{
    let r = all_in(a, b) && all_in(b, a);
    proof {
        if r {
            assert(dep_set(a@) =~= dep_set(b@));
        }
    }
    r
}

impl ImageState {
    /// The state of image `image` with engine id `id`, tag `tag`, built at
    /// `timestamp` with `deps` installed.
    pub fn new(
        id: &str,
        image: &str,
        tag: &str,
        os: Os,
        timestamp: u128,
        deps: Vec<String>,
        simple: bool,
    ) -> (r: ImageState)
        ensures
            r.id@ == id@,
            r.image@ == image@,
            r.tag@ == tag@,
            r.os == os,
            r.timestamp == timestamp,
            r.deps == deps,
            r.simple == simple,
    {
        ImageState {
            id: id.to_string(),
            image: image.to_string(),
            tag: tag.to_string(),
            os,
            timestamp,
            deps,
            simple,
        }
    }

    /// A copy of this state.
    pub fn copy(&self) -> (r: ImageState)
        ensures
            r.id == self.id,
            r.image == self.image,
            r.tag == self.tag,
            r.os == self.os,
            r.timestamp == self.timestamp,
            r.deps@ == self.deps@,
            r.simple == self.simple,
    {
        ImageState {
            id: self.id.clone(),
            image: self.image.clone(),
            tag: self.tag.clone(),
            os: self.os.copy(),
            timestamp: self.timestamp,
            deps: copy_strings(&self.deps),
            simple: self.simple,
        }
    }

    /// Whether this is a second-stage image with dependencies installed.
    pub fn is_cached(&self) -> (r: bool)
        ensures
            r == (self.tag@ == cached_tag()),
    {
        str_eq(self.tag.as_str(), "cached")
    }
}

/// Whether a job that needs `deps` must build the second-stage image on
/// top of `state`: it must unless `state` already is such an image built
/// with exactly that set.
pub open spec fn needs_dep_cache_spec(state: ImageState, deps: Seq<String>) -> bool {
    state.tag@ != cached_tag() || dep_set(state.deps@) != dep_set(deps)
}

/// Decides whether the second-stage image must be built.
pub fn needs_dep_cache(state: &ImageState, deps: &Vec<String>) -> (r: bool)
    ensures
        r == needs_dep_cache_spec(*state, deps@),
{
    !state.is_cached() || !same_deps(&state.deps, deps)
}

/// Every readable modification time in `mtimes` is no later than `ts`; an
/// entry whose time could not be read is passed over.
pub open spec fn all_fresh(mtimes: Seq<Option<u128>>, ts: u128) -> bool {
    forall|i: int| 0 <= i < mtimes.len() ==> (#[trigger] mtimes[i] matches Some(t) ==> t <= ts)
}

/// The map that a list of entries with distinct keys stands for.
pub open spec fn entries_map(s: Seq<(RecipeTarget, ImageState)>) -> Map<
    RecipeTargetView,
    ImageState,
>
    decreases s.len(),
{
    if s.len() == 0 {
        Map::empty()
    } else {
        entries_map(s.drop_last()).insert(s.last().0@, s.last().1)
    }
}

/// No two entries share a key.
pub open spec fn distinct_keys(s: Seq<(RecipeTarget, ImageState)>) -> bool {
    forall|i: int, j: int| 0 <= i < j < s.len() ==> s[i].0@ != s[j].0@
}

/// An entry's key is in the map exactly when some entry has it, and then
/// the map gives that entry's state.
pub proof fn lemma_entries_map(s: Seq<(RecipeTarget, ImageState)>)
    requires
        distinct_keys(s),
    ensures
        forall|k: RecipeTargetView|
            #[trigger] entries_map(s).contains_key(k) <==> exists|i: int|
                0 <= i < s.len() && s[i].0@ == k,
        forall|i: int| 0 <= i < s.len() ==> #[trigger] entries_map(s)[s[i].0@] == s[i].1,
    decreases s.len(),
{
    if s.len() > 0 {
        let t = s.drop_last();
        assert(distinct_keys(t));
        lemma_entries_map(t);
        assert forall|k: RecipeTargetView|
            #[trigger] entries_map(s).contains_key(k) implies exists|i: int|
                0 <= i < s.len() && s[i].0@ == k by {
            if k != s.last().0@ {
                assert(entries_map(t).contains_key(k));
                let i = choose|i: int| 0 <= i < t.len() && t[i].0@ == k;
                assert(s[i].0@ == k);
            } else {
                assert(s[s.len() - 1].0@ == k);
            }
        }
        assert forall|k: RecipeTargetView|
            (exists|i: int| 0 <= i < s.len() && s[i].0@ == k) implies #[trigger] entries_map(
            s,
        ).contains_key(k) by {
            let i = choose|i: int| 0 <= i < s.len() && s[i].0@ == k;
            if i < s.len() - 1 {
                assert(t[i].0@ == k);
                assert(entries_map(t).contains_key(k));
            }
        }
        assert forall|i: int| 0 <= i < s.len() implies #[trigger] entries_map(s)[s[i].0@]
            == s[i].1 by {
            if i < s.len() - 1 {
                assert(t[i] == s[i]);
                assert(s[i].0@ != s.last().0@);
                assert(entries_map(t)[t[i].0@] == t[i].1);
            }
        }
    }
}

/// Replacing the state of an existing key is an insert into the map.
pub proof fn lemma_entries_map_update(
    s: Seq<(RecipeTarget, ImageState)>,
    i: int,
    e: (RecipeTarget, ImageState),
)
    requires
        distinct_keys(s),
        0 <= i < s.len(),
        s[i].0@ == e.0@,
    ensures
        distinct_keys(s.update(i, e)),
        entries_map(s.update(i, e)) == entries_map(s).insert(e.0@, e.1),
    decreases s.len(),
{
    let u = s.update(i, e);
    assert(distinct_keys(u)) by {
        assert forall|a: int, b: int| 0 <= a < b < u.len() implies u[a].0@ != u[b].0@ by {
            assert(u[a].0@ == s[a].0@);
            assert(u[b].0@ == s[b].0@);
        }
    }
    if i == s.len() - 1 {
        assert(u.drop_last() =~= s.drop_last());
        assert(entries_map(u) =~= entries_map(s).insert(e.0@, e.1));
    } else {
        let t = s.drop_last();
        assert(distinct_keys(t));
        lemma_entries_map_update(t, i, e);
        assert(u.drop_last() =~= t.update(i, e));
        assert(s.last().0@ != e.0@);
        assert(entries_map(u) =~= entries_map(s).insert(e.0@, e.1));
    }
}

/// Why the persistent cache could not be used.
#[derive(Debug)]
pub enum StateError {
    /// The stored bytes do not hold a cache.
    Corrupt,
}

/// The persistent cache of built image states, keyed by recipe and image
/// target, with the file it is kept in and whether it changed since it was
/// loaded or last saved.
#[derive(Debug)]
pub struct ImagesState {
    images: Vec<(RecipeTarget, ImageState)>,
    state_file: String,
    changed: bool,
}

impl View for ImagesState {
    type V = Map<RecipeTargetView, ImageState>;

    closed spec fn view(&self) -> Map<RecipeTargetView, ImageState> {
        entries_map(self.images@)
    }
}

impl ImagesState {
    /// The entries have distinct keys.
    pub closed spec fn wf(&self) -> bool {
        distinct_keys(self.images@)
    }

    /// The recorded entries.
    pub closed spec fn spec_entries(&self) -> Seq<(RecipeTarget, ImageState)> {
        self.images@
    }

    /// Whether the cache changed since it was loaded or last saved.
    pub closed spec fn spec_changed(&self) -> bool {
        self.changed
    }

    /// The file the cache is kept in.
    pub closed spec fn spec_state_file(&self) -> Seq<char> {
        self.state_file@
    }

    /// An empty, unchanged cache kept in `state_file`.
    pub fn new(state_file: &str) -> (r: ImagesState)
        ensures
            r.wf(),
            r@ == Map::<RecipeTargetView, ImageState>::empty(),
            !r.spec_changed(),
            r.spec_state_file() == state_file@,
    {
        let r = ImagesState { images: Vec::new(), state_file: state_file.to_string(), changed: false };
        proof {
            assert(r@ =~= Map::<RecipeTargetView, ImageState>::empty());
        }
        r
    }

    /// Whether the cache changed since it was loaded or last saved.
    pub fn has_changed(&self) -> (r: bool)
        ensures
            r == self.spec_changed(),
    {
        self.changed
    }

    /// The file the cache is kept in.
    pub fn state_file(&self) -> (r: &str)
        ensures
            r@ == self.spec_state_file(),
    {
        self.state_file.as_str()
    }

    /// Records `state` under `target`, replacing what was there, and marks the
    /// cache changed.
    pub fn update(&mut self, target: RecipeTarget, state: ImageState)
        requires
            old(self).wf(),
        ensures
            final(self).wf(),
            final(self)@ == old(self)@.insert(target@, state),
            final(self).spec_changed(),
            final(self).spec_state_file() == old(self).spec_state_file(),
    {
        let n = self.images.len();
        let mut i: usize = 0;
        while i < n
            invariant
                n == self.images@.len(),
                self.images@ == old(self).images@,
                self.state_file == old(self).state_file,
                i <= n,
                distinct_keys(self.images@),
                forall|k: int| 0 <= k < i ==> self.images@[k].0@ != target@,
            decreases n - i,
        {
            if self.images[i].0.same(&target) {
                let ghost before = self.images@;
                let e = (target, state);
                proof {
                    lemma_entries_map_update(before, i as int, e);
                }
                self.images.set(i, e);
                proof {
                    assert(self.images@ =~= before.update(i as int, e));
                }
                self.changed = true;
                return;
            }
            i = i + 1;
        }
        let ghost before = self.images@;
        self.images.push((target, state));
        proof {
            assert(self.images@.drop_last() =~= before);
            assert(entries_map(self.images@) == entries_map(before).insert(target@, state));
            assert forall|a: int, b: int|
                0 <= a < b < self.images@.len() implies self.images@[a].0@ != self.images@[b].0@ by {
                if b == n {
                    assert(self.images@[a] == before[a]);
                }
            }
        }
        self.changed = true;
    }

    /// The state recorded under `target`, if any.
    pub fn get(&self, target: &RecipeTarget) -> (r: Option<&ImageState>)
        requires
            self.wf(),
        ensures
            r.is_some() == self@.contains_key(target@),
            r matches Some(s) ==> *s == self@[target@],
    {
        let n = self.images.len();
        let mut i: usize = 0;
        while i < n
            invariant
                n == self.images@.len(),
                distinct_keys(self.images@),
                i <= n,
                forall|k: int| 0 <= k < i ==> self.images@[k].0@ != target@,
            decreases n - i,
        {
            if self.images[i].0.same(target) {
                proof {
                    lemma_entries_map(self.images@);
                    assert(entries_map(self.images@)[self.images@[i as int].0@] == self.images@[i as int].1);
                    assert(entries_map(self.images@).contains_key(target@));
                }
                return Some(&self.images[i].1);
            }
            i = i + 1;
        }
        proof {
            lemma_entries_map(self.images@);
            if entries_map(self.images@).contains_key(target@) {
                let k = choose|k: int| 0 <= k < self.images@.len() && self.images@[k].0@ == target@;
                assert(self.images@[k].0@ != target@);
            }
        }
        None
    }

    /// Forgets every recorded state and marks the cache changed.
    pub fn clear(&mut self)
        ensures
            final(self).wf(),
            final(self)@ == Map::<RecipeTargetView, ImageState>::empty(),
            final(self).spec_changed(),
            final(self).spec_state_file() == old(self).spec_state_file(),
    {
        self.images = Vec::new();
        self.changed = true;
        proof {
            assert(self@ =~= Map::<RecipeTargetView, ImageState>::empty());
        }
    }

    /// The recorded entries, each key once, in the order they were first
    /// recorded.
    pub fn entries(&self) -> (r: &Vec<(RecipeTarget, ImageState)>)
        requires
            self.wf(),
        ensures
            r@ == self.spec_entries(),
            distinct_keys(r@),
            entries_map(r@) == self@,
    {
        &self.images
    }

    /// The unchanged cache kept in `state_file` that records `entries` in
    /// order, a later entry replacing an earlier one of the same key.
    pub fn from_entries(state_file: &str, entries: Vec<(RecipeTarget, ImageState)>) -> (r:
        ImagesState)
        ensures
            r.wf(),
            r@ == entries_map(entries@),
            !r.spec_changed(),
            r.spec_state_file() == state_file@,
    {
        let mut out = ImagesState::new(state_file);
        let mut rest = entries;
        let ghost all = rest@;
        let n = rest.len();
        let mut i: usize = 0;
        proof {
            assert(all.subrange(0, 0) =~= Seq::<(RecipeTarget, ImageState)>::empty());
            assert(rest@ =~= all.subrange(0, n as int));
        }
        while i < n
            invariant
                n == all.len(),
                i <= n,
                out.wf(),
                out@ == entries_map(all.subrange(0, i as int)),
                out.spec_state_file() == state_file@,
                rest@ == all.subrange(i as int, n as int),
            decreases n - i,
        {
            let e = rest.remove(0);
            proof {
                assert(e == all[i as int]);
                assert(rest@ =~= all.subrange(i + 1, n as int));
                assert(all.subrange(0, i + 1).drop_last() =~= all.subrange(0, i as int));
            }
            out.update(e.0, e.1);
            i = i + 1;
        }
        proof {
            assert(all.subrange(0, n as int) =~= all);
        }
        out.mark_saved();
        out
    }

    /// Marks the cache as just saved.
    pub fn mark_saved(&mut self)
        ensures
            final(self)@ == old(self)@,
            final(self).wf() == old(self).wf(),
            !final(self).spec_changed(),
            final(self).spec_state_file() == old(self).spec_state_file(),
    {
        self.changed = false;
    }
}

/// The cached state of `target`, when it may be reused: there is one, and
/// either the image is one of the provided ones or no readable
/// modification time in its directory is later than the state's timestamp.
pub open spec fn cached_state_spec(
    states: Map<RecipeTargetView, ImageState>,
    target: RecipeTargetView,
    mtimes: Seq<Option<u128>>,
    simple: bool,
) -> Option<ImageState> {
    if states.contains_key(target) && (simple || all_fresh(mtimes, states[target].timestamp)) {
        Some(states[target])
    } else {
        None
    }
}

/// Looks up the reusable cached state of `target`, given the modification
/// times of the entries of the image directory (`None` where one could not
/// be read).
pub fn find_cached_state(
    states: &ImagesState,
    target: &RecipeTarget,
    mtimes: &Vec<Option<u128>>,
    simple: bool,
) -> (r: Option<ImageState>)
    requires
        states.wf(),
    ensures
        r.is_some() == cached_state_spec(states@, target@, mtimes@, simple).is_some(),
        r matches Some(s) ==> {
            let c = states@[target@];
            s.id == c.id && s.image == c.image && s.tag == c.tag && s.os == c.os
                && s.timestamp == c.timestamp && s.deps@ == c.deps@ && s.simple == c.simple
        },
{
    let state = match states.get(target) {
        Some(s) => s,
        None => return None,
    };
    if simple {
        return Some(state.copy());
    }
    let n = mtimes.len();
    let mut i: usize = 0;
    while i < n
        invariant
            n == mtimes@.len(),
            i <= n,
            states@.contains_key(target@),
            *state == states@[target@],
            !simple,
            forall|k: int| 0 <= k < i ==> (#[trigger] mtimes@[k] matches Some(t) ==> t <= state.timestamp),
        decreases n - i,
    {
        match mtimes[i] {
            Some(t) => {
                if t > state.timestamp {
                    proof {
                        assert(mtimes@[i as int] == Some(t));
                        assert(!all_fresh(mtimes@, state.timestamp));
                    }
                    return None;
                }
            },
            None => {},
        }
        i = i + 1;
    }
    Some(state.copy())
}

/// Touching a file of the image directory after the image was built makes
/// the cached state unusable, unless the image is one of the provided ones.
pub proof fn lemma_touch_invalidates(
    states: Map<RecipeTargetView, ImageState>,
    target: RecipeTargetView,
    mtimes: Seq<Option<u128>>,
    i: int,
)
    requires
        states.contains_key(target),
        0 <= i < mtimes.len(),
        mtimes[i] matches Some(t) && t > states[target].timestamp,
    ensures
        cached_state_spec(states, target, mtimes, false).is_none(),
{
}

/// Once a second-stage image built with the dependency set of `built` is
/// recorded under `target`, a later job on the unchanged image directory
/// finds it, tagged `cached`, and skips the dependency installation exactly
/// when it needs the same set of dependencies.
pub proof fn lemma_dep_set_round_trip(
    states: Map<RecipeTargetView, ImageState>,
    target: RecipeTargetView,
    built: ImageState,
    mtimes: Seq<Option<u128>>,
    simple: bool,
    deps: Seq<String>,
)
    requires
        built.tag@ == cached_tag(),
        simple || all_fresh(mtimes, built.timestamp),
    ensures
        cached_state_spec(states.insert(target, built), target, mtimes, simple) == Some(built),
        !needs_dep_cache_spec(built, deps) <==> dep_set(built.deps@) == dep_set(deps),
{
}

/// The name under which an image is tagged: `<image>:<tag>`.
pub fn image_tag(image: &str, tag: &str) -> (r: String)
    ensures
        r@ == image@ + ":"@ + tag@,
{
    let mut t = image.to_string();
    t.append(":");
    t.append(tag);
    t
}

/// Whether a cached state found for a job may be reused: it was found, it
/// was built with the job's set of dependencies, and the engine still has
/// the image.
pub open spec fn reuse_spec(cached: Option<ImageState>, deps: Seq<String>, exists_in_engine: bool) -> bool {
    match cached {
        Some(s) => dep_set(s.deps@) == dep_set(deps) && exists_in_engine,
        None => false,
    }
}

/// Decides whether the job reuses the cached image or builds it anew.
pub fn reuse_cached(cached: &Option<ImageState>, deps: &Vec<String>, exists_in_engine: bool) -> (r: bool)
    ensures
        r == reuse_spec(*cached, deps@, exists_in_engine),
{
    match cached {
        Some(s) => same_deps(&s.deps, deps) && exists_in_engine,
        None => false,
    }
}

/// What the engine reports while it builds an image.
#[derive(Debug)]
pub enum BuildEvent {
    /// A line of build output.
    Update { stream: String },
    /// The build failed with this message.
    Error { message: String },
    /// The image was built with this id.
    Digest { id: String },
    /// Anything else.
    Other,
}

/// Why an image could not be built.
#[derive(Debug)]
pub enum ImageError {
    /// The engine reported a failure.
    BuildFailed { message: String },
    /// The report ended before the image's id came.
    Incomplete,
}

/// What a report of image-build events comes to: the id of the first
/// digest, the message of the first error if it comes before, or nothing
/// when neither comes.
pub open spec fn build_outcome_spec(events: Seq<BuildEvent>) -> Option<Result<Seq<char>, Seq<char>>>
    decreases events.len(),
{
    if events.len() == 0 {
        None
    } else {
        match events[0] {
            BuildEvent::Error { message } => Some(Err(message@)),
            BuildEvent::Digest { id } => Some(Ok(id@)),
            _ => build_outcome_spec(events.drop_first()),
        }
    }
}

/// Reads the outcome of an image build from its events.
pub fn build_outcome(events: &Vec<BuildEvent>) -> (r: Result<String, ImageError>)
    ensures
        match build_outcome_spec(events@) {
            Some(Ok(id)) => r matches Ok(x) && x@ == id,
            Some(Err(m)) => r matches Err(ImageError::BuildFailed { message }) && message@ == m,
            None => r matches Err(ImageError::Incomplete),
        },
{
    let n = events.len();
    let mut i: usize = 0;
    proof {
        assert(events@.subrange(0, n as int) =~= events@);
    }
    while i < n
        invariant
            n == events@.len(),
            i <= n,
            build_outcome_spec(events@) == build_outcome_spec(events@.subrange(i as int, n as int)),
        decreases n - i,
    {
        proof {
            assert(events@.subrange(i as int, n as int)[0] == events@[i as int]);
            assert(events@.subrange(i as int, n as int).drop_first() =~= events@.subrange(i + 1, n as int));
        }
        match &events[i] {
            BuildEvent::Error { message } => {
                return Err(ImageError::BuildFailed { message: message.clone() });
            },
            BuildEvent::Digest { id } => {
                return Ok(id.clone());
            },
            _ => {},
        }
        i = i + 1;
    }
    Err(ImageError::Incomplete)
}

/// Loading the entries a cache hands out for saving gives back the same
/// cache: every key with its state, and nothing else.
pub proof fn lemma_state_round_trip(s: ImagesState)
    requires
        s.wf(),
    ensures
        distinct_keys(s.spec_entries()),
        entries_map(s.spec_entries()) == s@,
{
}

/// Why a second-stage image could not be described.
#[derive(Debug)]
pub enum CacheError {
    /// The image's operating system has no known package manager.
    NoPackageManager,
}

/// The Dockerfile of the second-stage image built on `base` (an image
/// name with its tag), installing `deps` with package manager `m`.
pub open spec fn cache_dockerfile_spec(base: Seq<char>, m: PackageManager, deps: Seq<Seq<char>>) -> Seq<
    char,
> {
    "FROM "@ + base + "\nENV DEBIAN_FRONTEND noninteractive\nRUN "@ + manager_cmd(m) + " "@
        + clean_cache_spec(m) + "\nRUN "@ + manager_cmd(m) + " "@ + update_repos_spec(m)
        + "\nRUN "@ + manager_cmd(m) + " "@ + install_spec(m) + " "@ + join_with(deps, " "@)
}

/// Writes the Dockerfile that installs `deps` into the image `state`
/// describes, to be tagged `cached`.
pub fn cache_dockerfile(state: &ImageState, deps: &Vec<String>) -> (r: Result<
    String,
    CacheError,
>)
    ensures
        r.is_err() <==> state.os.package_manager_spec() == PackageManager::Unknown,
        r matches Ok(d) ==> d@ == cache_dockerfile_spec(
            state.image@ + ":"@ + state.tag@,
            state.os.package_manager_spec(),
            views(deps@),
        ),
{
    let m = state.os.package_manager();
    if matches!(m, PackageManager::Unknown) {
        return Err(CacheError::NoPackageManager);
    }
    let pm = m.as_str();
    let mut d = String::from_str("FROM ");
    d.append(state.image.as_str());
    d.append(":");
    d.append(state.tag.as_str());
    d.append("\nENV DEBIAN_FRONTEND noninteractive\nRUN ");
    d.append(pm);
    d.append(" ");
    d.append(m.clean_cache());
    d.append("\nRUN ");
    d.append(pm);
    d.append(" ");
    d.append(m.update_repos_args());
    d.append("\nRUN ");
    d.append(pm);
    d.append(" ");
    d.append(m.install_args());
    d.append(" ");
    let joined = join(deps, " ");
    d.append(joined.as_str());
    proof {
        assert(d@ =~= cache_dockerfile_spec(
            state.image@ + ":"@ + state.tag@,
            state.os.package_manager_spec(),
            views(deps@),
        ));
    }
    Ok(d)
}

} // verus!
