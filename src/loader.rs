//! The resource cache: materials and textures stored under unique names.

use vstd::prelude::*;

use crate::handles::Texture;
use crate::material::Material;
use crate::texture2d::Texture2D;

verus! {

/// Why a cache operation failed.
#[derive(Debug, Clone, Copy, PartialEq, Eq, Structural)]
pub enum ResourceError {
    /// Something is already stored under the name.
    DuplicateName,
    /// Nothing is stored under the name.
    NotFound,
}

/// Values stored under unique names, in the order they were added.
struct Registry<T> {
    entries: Vec<(String, T)>,
    contents: Ghost<Map<Seq<char>, T>>,
}

impl<T: Copy> Registry<T> {
    spec fn wf(&self) -> bool {
        &&& forall|i: int, j: int|
            0 <= i < j < self.entries@.len() ==> self.entries@[i].0@ != self.entries@[j].0@
        &&& forall|i: int|
            0 <= i < self.entries@.len() ==> {
                &&& self.contents@.contains_key(#[trigger] self.entries@[i].0@)
                &&& self.contents@[self.entries@[i].0@] == self.entries@[i].1
            }
        &&& forall|k: Seq<char>|
            #[trigger] self.contents@.contains_key(k) ==> exists|i: int|
                0 <= i < self.entries@.len() && self.entries@[i].0@ == k
    }

    spec fn view(&self) -> Map<Seq<char>, T> {
        self.contents@
    }

    fn new() -> (r: Registry<T>)
        ensures
            r.wf(),
            r.view() == Map::<Seq<char>, T>::empty(),
    {
        Registry { entries: Vec::new(), contents: Ghost(Map::empty()) }
    }

    fn find(&self, name: &String) -> (r: Option<usize>)
        requires
            self.wf(),
        ensures
            r is Some <==> self.view().contains_key(name@),
            r matches Some(i) ==> i < self.entries@.len() && self.entries@[i as int].0@ == name@,
    {
        let mut i: usize = 0;
        while i < self.entries.len()
            invariant
                self.wf(),
                i <= self.entries@.len(),
                forall|j: int| 0 <= j < i ==> self.entries@[j].0@ != name@,
            decreases self.entries@.len() - i,
        {
            if self.entries[i].0 == *name {
                return Some(i);
            }
            i = i + 1;
        }
        None
    }

    fn get(&self, name: &str) -> (r: Option<T>)
        requires
            self.wf(),
        ensures
            r == (if self.view().contains_key(name@) {
                Some(self.view()[name@])
            } else {
                None
            }),
    {
        let key = name.to_owned();
        match self.find(&key) {
            Some(i) => Some(self.entries[i].1),
            None => None,
        }
    }

    fn insert(&mut self, name: &str, value: T) -> (r: bool)
        requires
            old(self).wf(),
        ensures
            final(self).wf(),
            r == !old(self).view().contains_key(name@),
            final(self).view() == (if r {
                old(self).view().insert(name@, value)
            } else {
                old(self).view()
            }),
    {
        let key = name.to_owned();
        if self.find(&key).is_some() {
            return false;
        }
        let ghost before = self.entries@;
        self.entries.push((key, value));
        self.contents = Ghost(self.contents@.insert(name@, value));
        proof {
            assert forall|k: Seq<char>| #[trigger] self.contents@.contains_key(k) implies exists|i: int|
                0 <= i < self.entries@.len() && self.entries@[i].0@ == k by {
                if k != name@ {
                    let i = choose|i: int| 0 <= i < before.len() && before[i].0@ == k;
                    assert(self.entries@[i] == before[i]);
                } else {
                    assert(self.entries@[before.len() as int].0@ == k);
                }
            }
        }
        true
    }
}

/// The cache of every material and texture the game uses. Names are unique
/// within each kind and nothing is ever removed.
pub struct Loader {
    materials: Registry<Material>,
    textures: Registry<Texture2D>,
}

impl Loader {
    pub closed spec fn wf(&self) -> bool {
        self.materials.wf() && self.textures.wf()
    }

    /// The materials held, by name.
    pub closed spec fn materials(&self) -> Map<Seq<char>, Material> {
        self.materials.view()
    }

    /// The textures held, by name.
    pub closed spec fn textures(&self) -> Map<Seq<char>, Texture2D> {
        self.textures.view()
    }

    /// An empty cache.
    pub fn new() -> (r: Loader)
        ensures
            r.wf(),
            r.materials() == Map::<Seq<char>, Material>::empty(),
            r.textures() == Map::<Seq<char>, Texture2D>::empty(),
    {
        Loader { materials: Registry::new(), textures: Registry::new() }
    }

    /// Stores `material` under `name` and hands back its handle; refuses a name
    /// that is already taken, leaving the cache as it was.
    pub fn load_material(&mut self, name: &str, material: Material) -> (r: Result<
        Material,
        ResourceError,
    >)
        requires
            old(self).wf(),
        ensures
            final(self).wf(),
            final(self).textures() == old(self).textures(),
            old(self).materials().contains_key(name@) ==> {
                &&& r == Err::<Material, ResourceError>(ResourceError::DuplicateName)
                &&& final(self).materials() == old(self).materials()
            },
            !old(self).materials().contains_key(name@) ==> {
                &&& r == Ok::<Material, ResourceError>(material)
                &&& final(self).materials() == old(self).materials().insert(name@, material)
            },
    {
        if self.materials.insert(name, material) {
            Ok(material)
        } else {
            Err(ResourceError::DuplicateName)
        }
    }

    /// The material stored under `name`.
    pub fn get_material(&self, name: &str) -> (r: Result<Material, ResourceError>)
        requires
            self.wf(),
        ensures
            r == (if self.materials().contains_key(name@) {
                Ok::<Material, ResourceError>(self.materials()[name@])
            } else {
                Err(ResourceError::NotFound)
            }),
    {
        match self.materials.get(name) {
            Some(m) => Ok(m),
            None => Err(ResourceError::NotFound),
        }
    }

    /// Stores the uploaded image `texture` under `name`, with four channels when
    /// `alpha` is set and three otherwise, repeating wrap and linear filtering,
    /// and hands back the description; refuses a name that is already taken,
    /// leaving the cache as it was.
    pub fn load_texture(&mut self, name: &str, texture: Texture, alpha: bool) -> (r: Result<
        Texture2D,
        ResourceError,
    >)
        requires
            old(self).wf(),
        ensures
            final(self).wf(),
            final(self).materials() == old(self).materials(),
            old(self).textures().contains_key(name@) ==> {
                &&& r == Err::<Texture2D, ResourceError>(ResourceError::DuplicateName)
                &&& final(self).textures() == old(self).textures()
            },
            !old(self).textures().contains_key(name@) ==> {
                &&& r == Ok::<Texture2D, ResourceError>(Texture2D::spec_for_image(texture, alpha))
                &&& final(self).textures() == old(self).textures().insert(
                    name@,
                    Texture2D::spec_for_image(texture, alpha),
                )
            },
    {
        let texture_2d = Texture2D::for_image(texture, alpha);
        if self.textures.insert(name, texture_2d) {
            Ok(texture_2d)
        } else {
            Err(ResourceError::DuplicateName)
        }
    }

    /// The texture stored under `name`.
    pub fn get_texture(&self, name: &str) -> (r: Result<Texture2D, ResourceError>)
        requires
            self.wf(),
        ensures
            r == (if self.textures().contains_key(name@) {
                Ok::<Texture2D, ResourceError>(self.textures()[name@])
            } else {
                Err(ResourceError::NotFound)
            }),
    {
        match self.textures.get(name) {
            Some(t) => Ok(t),
            None => Err(ResourceError::NotFound),
        }
    }
}

/// What the cache's contracts give for names: once a value is stored under a
/// name that was free, the name is taken, so storing under it again is refused
/// with [`ResourceError::DuplicateName`], and every lookup of it finds that
/// same value; a name that was never stored stays free, so its lookup fails
/// with [`ResourceError::NotFound`].
pub proof fn lemma_cache_names<T>(stored: Map<Seq<char>, T>, name: Seq<char>, value: T, other: Seq<char>)
    requires
        !stored.contains_key(name),
        !stored.contains_key(other),
        other != name,
    ensures
        stored.insert(name, value).contains_key(name),
        stored.insert(name, value)[name] == value,
        !stored.insert(name, value).contains_key(other),
{
}

} // verus!
