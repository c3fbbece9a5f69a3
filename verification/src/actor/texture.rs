use vstd::prelude::*;

verus! {

/// What the library knows of a loaded texture: its handle and its size in
/// pixels. The handle is the texture's place in the order of loading; the
/// renderer keeps its resources under the same handle.
#[derive(Clone, Copy, Debug, PartialEq, Eq)]
pub struct Texture {
    pub id: u32,
    pub width: u32,
    pub height: u32,
}

/// The registry of loaded textures, by file name, in the order of loading.
pub struct TextureManager {
    names: Vec<String>,
    textures: Vec<Texture>,
}

impl TextureManager {
    /// The file names that were loaded, in order.
    pub closed spec fn names(&self) -> Seq<Seq<char>> {
        self.names@.map_values(|name: String| name@)
    }

    /// The textures that were loaded, in the same order as their names.
    pub closed spec fn textures(&self) -> Seq<Texture> {
        self.textures@
    }

    /// Each name is registered once, with one texture, whose handle is its
    /// place in the order of loading.
    pub open spec fn wf(&self) -> bool {
        &&& self.names().len() == self.textures().len()
        &&& self.names().no_duplicates()
        &&& forall|i: int| 0 <= i < self.textures().len() ==> self.textures()[i].id == i
    }

    /// The texture registered under `name`, if there is one.
    pub open spec fn lookup(&self, name: Seq<char>) -> Option<Texture> {
        if self.names().contains(name) {
            Some(self.textures()[self.names().index_of(name)])
        } else {
            None
        }
    }

    /// Whether this registry is `before` after the texture decoded from
    /// the file `name` has been loaded into it. A name that was registered
    /// keeps its texture, and a file that could not be read registers
    /// nothing: both leave the registry as it was. A new name with an
    /// image is registered behind the others, under the next handle.
    pub open spec fn has_loaded(
        &self,
        before: &TextureManager,
        name: Seq<char>,
        image: Option<(u32, u32)>,
    ) -> bool {
        if before.names().contains(name) {
            &&& self.names() == before.names()
            &&& self.textures() == before.textures()
        } else {
            match image {
                None => {
                    &&& self.names() == before.names()
                    &&& self.textures() == before.textures()
                },
                Some((width, height)) => {
                    &&& self.names() == before.names().push(name)
                    &&& self.textures() == before.textures().push(
                        Texture { id: before.names().len() as u32, width, height },
                    )
                },
            }
        }
    }

    /// Whether the registry has room for the texture decoded from the file
    /// `name`: it is asked for room only where it will register something.
    pub open spec fn has_room(&self, name: Seq<char>, image: Option<(u32, u32)>) -> bool {
        !self.names().contains(name) && image is Some ==> self.names().len() < u32::MAX
    }

    /// An empty registry.
    pub fn new() -> (manager: TextureManager)
        ensures
            manager.wf(),
            manager.names() == Seq::<Seq<char>>::empty(),
            manager.textures() == Seq::<Texture>::empty(),
    {
        let manager = TextureManager { names: Vec::new(), textures: Vec::new() };
        assert(manager.names() =~= Seq::<Seq<char>>::empty());
        manager
    }

    /// The place of `name` in the registry.
    fn find(&self, name: &String) -> (found: Option<usize>)
        requires
            self.wf(),
        ensures
            match found {
                Some(i) => self.names().contains(name@) && i == self.names().index_of(name@),
                None => !self.names().contains(name@),
            },
    {
        let mut i: usize = 0;
        while i < self.names.len()
            invariant
                i <= self.names.len(),
                self.wf(),
                forall|j: int| 0 <= j < i ==> self.names()[j] != name@,
            decreases self.names.len() - i,
        {
            if self.names[i] == *name {
                assert(self.names()[i as int] == name@);
                return Some(i);
            }
            i += 1;
        }
        None
    }

    /// How many textures are registered.
    pub fn len(&self) -> (n: usize)
        ensures
            n == self.names().len(),
    {
        self.names.len()
    }

    /// Whether a texture is registered under `filename`.
    pub fn contains(&self, filename: &str) -> (b: bool)
        requires
            self.wf(),
        ensures
            b == self.names().contains(filename@),
    {
        let name = filename.to_owned();
        self.find(&name).is_some()
    }

    /// Register the texture that was decoded from `filename`.
    ///
    /// `image` is the size of the decoded image, or `None` where the file
    /// could not be read. A name that is registered already is left as it
    /// is, whatever `image` holds. The result is the handle of the texture
    /// that is now registered under the name, or `None` where there is
    /// none: the name was new and its file could not be read.
    pub fn load_texture(&mut self, filename: &str, image: Option<(u32, u32)>) -> (handle: Option<
        u32,
    >)
        requires
            old(self).wf(),
            old(self).has_room(filename@, image),
        ensures
            final(self).wf(),
            match final(self).lookup(filename@) {
                Some(texture) => handle == Some(texture.id),
                None => handle is None,
            },
            final(self).has_loaded(old(self), filename@, image),
    {
        let name = filename.to_owned();
        if let Some(i) = self.find(&name) {
            return Some(self.textures[i].id);
        }
        match image {
            None => None,
            Some((width, height)) => {
                let id = self.names.len() as u32;
                self.names.push(name);
                self.textures.push(Texture { id, width, height });
                assert(self.names() =~= old(self).names().push(filename@));
                assert(self.names()[id as int] == filename@);
                proof {
                    let at = self.names().index_of(filename@);
                    assert(self.names().contains(filename@));
                    assert(self.names()[at] == filename@);
                    assert(at == id);
                }
                Some(id)
            },
        }
    }

    /// The texture registered under `filename`, if there is one.
    pub fn get_texture(&self, filename: &str) -> (texture: Option<Texture>)
        requires
            self.wf(),
        ensures
            texture == self.lookup(filename@),
    {
        let name = filename.to_owned();
        match self.find(&name) {
            Some(i) => Some(self.textures[i]),
            None => None,
        }
    }
}

} // verus!
