//! Texture and shader caches. A resource is known by its path or name and
//! handed out as a handle; the engine loads, uploads or compiles what a
//! handle stands for. A handle is never handed out for two resources.
use vstd::prelude::*;
use crate::assoc::AssocMap;

verus! {

/// Getting `path` from a cache of handles `before`, whose next new handle
/// is `next0`: a cached path gives its handle and changes nothing; a new
/// path gets handle `next0` and is cached under it.
pub open spec fn cache_get(before: Map<Seq<char>, u64>, next0: u64, path: Seq<char>, h: u64,
    after: Map<Seq<char>, u64>, next1: u64) -> bool {
    if before.dom().contains(path) {
        h == before[path] && after == before && next1 == next0
    } else {
        h == next0 && after == before.insert(path, h) && next1 == next0 + 1
    }
}

/// Getting the same path twice in a row gives the same handle, and the
/// second get caches nothing new: after the first the path is cached.
pub proof fn lemma_get_twice(c0: Map<Seq<char>, u64>, n0: u64, path: Seq<char>, h1: u64, c1: Map<Seq<char>, u64>, n1: u64,
    h2: u64, c2: Map<Seq<char>, u64>, n2: u64)
    requires
        cache_get(c0, n0, path, h1, c1, n1),
        cache_get(c1, n1, path, h2, c2, n2),
    ensures
        c1.dom().contains(path) && c1[path] == h1,
        h2 == h1,
        c2 == c1,
        n2 == n1,
{
}

/// Handle of a texture.
#[derive(Clone, Copy, Debug, PartialEq, Eq, Structural)]
pub struct TextureRef {
    pub id: u64,
}

impl View for TextureRef {
    type V = u64;

    open spec fn view(&self) -> u64 {
        self.id
    }
}

/// Handle of a texture atlas.
#[derive(Clone, Copy, Debug, PartialEq, Eq, Structural)]
pub struct AtlasRef {
    pub id: u64,
}

/// Handle of a shader.
#[derive(Clone, Copy, Debug, PartialEq, Eq, Structural)]
pub struct ShaderRef {
    pub id: u64,
}

impl View for ShaderRef {
    type V = u64;

    open spec fn view(&self) -> u64 {
        self.id
    }
}

/// Handle of a shader variant.
#[derive(Clone, Copy, Debug, PartialEq, Eq, Structural)]
pub struct ShaderVariantRef {
    pub id: u64,
}

/// The pixels of a texture made from data, with its size.
pub struct TextureData {
    pub data: Vec<u8>,
    pub width: u32,
    pub height: u32,
}

pub struct TextureDataView {
    pub data: Seq<u8>,
    pub width: u32,
    pub height: u32,
}

impl View for TextureData {
    type V = TextureDataView;

    open spec fn view(&self) -> TextureDataView {
        TextureDataView { data: self.data@, width: self.width, height: self.height }
    }
}

/// An atlas: its handle and the textures packed into it, in order.
pub struct Atlas {
    pub handle: AtlasRef,
    pub members: Vec<TextureRef>,
}

pub struct AtlasView {
    pub handle: u64,
    pub members: Seq<u64>,
}

impl View for Atlas {
    type V = AtlasView;

    open spec fn view(&self) -> AtlasView {
        AtlasView { handle: self.handle.id, members: self.members@.map_values(|t: TextureRef| t@) }
    }
}

fn copy_bytes(data: &[u8]) -> (c: Vec<u8>)
    ensures
        c@ == data@,
{
    let mut c: Vec<u8> = Vec::new();
    let mut i: usize = 0;
    while i < data.len()
        invariant
            i <= data@.len(),
            c@ == data@.subrange(0, i as int),
        decreases data@.len() - i,
    {
        c.push(data[i]);
        i = i + 1;
    }
    assert(data@.subrange(0, data@.len() as int) =~= data@);
    c
}

/// Textures by path or name, the pixels of those made from data, and the
/// atlases by name.
pub struct TextureManager {
    textures: AssocMap<String, TextureRef>,
    generated: AssocMap<String, TextureData>,
    texture_atlas: AssocMap<String, Atlas>,
    next_id: u64,
}

impl TextureManager {
    /// Every handle given out lies below the next one.
    pub closed spec fn wf(&self) -> bool {
        &&& self.textures.wf()
        &&& self.generated.wf()
        &&& self.texture_atlas.wf()
        &&& forall|k: Seq<char>| #[trigger] self.textures.map().dom().contains(k) ==> self.textures.map()[k] < self.next_id
        &&& forall|k: Seq<char>| #[trigger] self.texture_atlas.map().dom().contains(k) ==> self.texture_atlas.map()[k].handle < self.next_id
    }

    /// The handle of each known texture.
    pub closed spec fn textures(&self) -> Map<Seq<char>, u64> {
        self.textures.map()
    }

    /// The pixels of each texture made from data.
    pub closed spec fn generated(&self) -> Map<Seq<char>, TextureDataView> {
        self.generated.map()
    }

    /// Each atlas by name.
    pub closed spec fn atlases(&self) -> Map<Seq<char>, AtlasView> {
        self.texture_atlas.map()
    }

    /// The handle the next new resource gets.
    pub closed spec fn next_handle(&self) -> u64 {
        self.next_id
    }

    pub fn new() -> (m: Self)
        ensures
            m.wf(),
            m.textures() == Map::<Seq<char>, u64>::empty(),
            m.generated() == Map::<Seq<char>, TextureDataView>::empty(),
            m.atlases() == Map::<Seq<char>, AtlasView>::empty(),
            m.next_handle() == 0,
    {
        TextureManager { textures: AssocMap::new(), generated: AssocMap::new(), texture_atlas: AssocMap::new(), next_id: 0 }
    }

    /// The texture at `path`: the cached handle, or a new one that the
    /// engine loads the file behind.
    pub fn get_texture(&mut self, path: &str) -> (h: TextureRef)
        requires
            old(self).wf(),
            old(self).next_handle() < u64::MAX,
        ensures
            final(self).wf(),
            final(self).generated() == old(self).generated(),
            final(self).atlases() == old(self).atlases(),
            cache_get(old(self).textures(), old(self).next_handle(), path@, h@, final(self).textures(), final(self).next_handle()),
    {
        let key = path.to_string();
        match self.textures.get(&key) {
            Some(h) => *h,
            None => {
                let h = TextureRef { id: self.next_id };
                self.textures.insert(key, h);
                self.next_id = self.next_id + 1;
                h
            },
        }
    }

    /// Makes texture `name` from `data` of `width` by `height`, under a new
    /// handle; a texture of that name is replaced.
    pub fn create_texture_from_data(&mut self, name: &str, data: &[u8], width: u32, height: u32) -> (h: TextureRef)
        requires
            old(self).wf(),
            old(self).next_handle() < u64::MAX,
        ensures
            final(self).wf(),
            h@ == old(self).next_handle(),
            final(self).next_handle() == old(self).next_handle() + 1,
            final(self).textures() == old(self).textures().insert(name@, h@),
            final(self).generated() == old(self).generated().insert(name@, TextureDataView { data: data@, width, height }),
            final(self).atlases() == old(self).atlases(),
    {
        let h = TextureRef { id: self.next_id };
        self.textures.insert(name.to_string(), h);
        self.generated.insert(name.to_string(), TextureData { data: copy_bytes(data), width, height });
        self.next_id = self.next_id + 1;
        h
    }

    /// Packs the textures at `paths` (loading those not yet known) into an
    /// atlas named `name`, under a new handle; an atlas of that name is
    /// replaced and atlases of other names stay. The atlas lists its
    /// members in the order given; sizing their regions within the atlas
    /// image and uploading the pixels is the engine's, which is given only
    /// the handles.
    pub fn create_atlas(&mut self, paths: &Vec<String>, name: &str) -> (a: AtlasRef)
        requires
            old(self).wf(),
            old(self).next_handle() + paths@.len() < u64::MAX,
        ensures
            final(self).wf(),
            final(self).generated() == old(self).generated(),
            forall|k: Seq<char>| #[trigger] old(self).textures().dom().contains(k) ==>
                final(self).textures().dom().contains(k) && final(self).textures()[k] == old(self).textures()[k],
            forall|k: Seq<char>| #[trigger] final(self).textures().dom().contains(k) ==>
                old(self).textures().dom().contains(k) || exists|j: int| 0 <= j < paths@.len() && paths@[j]@ == k,
            forall|j: int| 0 <= j < paths@.len() ==> final(self).textures().dom().contains(#[trigger] paths@[j]@),
            a.id == final(self).next_handle() - 1,
            old(self).next_handle() <= a.id <= old(self).next_handle() + paths@.len(),
            final(self).atlases() == old(self).atlases().insert(name@, AtlasView {
                handle: a.id,
                members: paths@.map_values(|p: String| final(self).textures()[p@]),
            }),
    {
        let mut members: Vec<TextureRef> = Vec::new();
        let mut i: usize = 0;
        while i < paths.len()
            invariant
                self.wf(),
                i <= paths@.len(),
                old(self).wf(),
                old(self).next_handle() <= self.next_handle() <= old(self).next_handle() + i,
                old(self).next_handle() + paths@.len() < u64::MAX,
                self.generated() == old(self).generated(),
                self.atlases() == old(self).atlases(),
                forall|k: Seq<char>| #[trigger] old(self).textures().dom().contains(k) ==>
                    self.textures().dom().contains(k) && self.textures()[k] == old(self).textures()[k],
                forall|k: Seq<char>| #[trigger] self.textures().dom().contains(k) ==>
                    old(self).textures().dom().contains(k) || exists|j: int| 0 <= j < i && paths@[j]@ == k,
                members@.len() == i,
                forall|j: int| 0 <= j < i ==> self.textures().dom().contains(#[trigger] paths@[j]@)
                    && members@[j]@ == self.textures()[paths@[j]@],
            decreases paths@.len() - i,
        {
            let ghost before = self.textures();
            let h = self.get_texture(paths[i].as_str());
            members.push(h);
            proof {
                assert forall|k: Seq<char>| #[trigger] self.textures().dom().contains(k) implies
                    old(self).textures().dom().contains(k) || exists|j: int| 0 <= j < i + 1 && paths@[j]@ == k by {
                    if !before.dom().contains(k) {
                        assert(paths@[i as int]@ == k);
                    }
                }
                assert forall|j: int| 0 <= j < i + 1 implies self.textures().dom().contains(#[trigger] paths@[j]@)
                    && members@[j]@ == self.textures()[paths@[j]@] by {
                    if j < i {
                        assert(before.dom().contains(paths@[j]@));
                    }
                }
            }
            i = i + 1;
        }
        let ghost t_end = self.textures();
        assert(i == paths@.len());
        assert forall|k: Seq<char>| #[trigger] t_end.dom().contains(k) implies
            old(self).textures().dom().contains(k) || exists|j: int| 0 <= j < paths@.len() && paths@[j]@ == k by {
            if !old(self).textures().dom().contains(k) {
                assert(self.textures().dom().contains(k));
            }
        }
        let a = AtlasRef { id: self.next_id };
        let atlas = Atlas { handle: a, members };
        self.texture_atlas.insert(name.to_string(), atlas);
        self.next_id = self.next_id + 1;
        proof {
            assert(atlas@.members =~= paths@.map_values(|p: String| self.textures()[p@]));
        }
        assert(self.textures() == t_end);
        a
    }
}

/// One variant of a shader: its handle and the defines it was made with.
pub struct ShaderVariant {
    pub handle: ShaderVariantRef,
    pub defines: Vec<(String, String)>,
}

/// The defines as plain values.
pub open spec fn defines_view(defines: Seq<(String, String)>) -> Seq<(Seq<char>, Seq<char>)> {
    defines.map_values(|d: (String, String)| (d.0@, d.1@))
}

/// The variants made of one shader, in the order they were made.
pub struct ShaderVariants {
    pub items: Vec<ShaderVariant>,
}

impl View for ShaderVariants {
    type V = Seq<(u64, Seq<(Seq<char>, Seq<char>)>)>;

    open spec fn view(&self) -> Seq<(u64, Seq<(Seq<char>, Seq<char>)>)> {
        self.items@.map_values(|v: ShaderVariant| (v.handle.id, defines_view(v.defines@)))
    }
}

fn copy_defines(defines: &Vec<(String, String)>) -> (c: Vec<(String, String)>)
    ensures
        defines_view(c@) == defines_view(defines@),
{
    let mut c: Vec<(String, String)> = Vec::new();
    let mut i: usize = 0;
    while i < defines.len()
        invariant
            i <= defines@.len(),
            c@.len() == i,
            forall|j: int| 0 <= j < i ==> (#[trigger] c@[j]).0@ == defines@[j].0@ && c@[j].1@ == defines@[j].1@,
        decreases defines@.len() - i,
    {
        let (a, b) = (defines[i].0.clone(), defines[i].1.clone());
        c.push((a, b));
        i = i + 1;
    }
    assert(defines_view(c@) =~= defines_view(defines@));
    c
}

/// Shaders by path and the variants made of each.
pub struct ShaderCache {
    shaders: AssocMap<String, ShaderRef>,
    shader_variants: AssocMap<String, ShaderVariants>,
    next_id: u64,
}

impl ShaderCache {
    /// Every handle given out lies below the next one.
    pub closed spec fn wf(&self) -> bool {
        &&& self.shaders.wf()
        &&& self.shader_variants.wf()
        &&& forall|k: Seq<char>| #[trigger] self.shaders.map().dom().contains(k) ==> self.shaders.map()[k] < self.next_id
        &&& forall|k: Seq<char>, i: int| #[trigger] self.shader_variants.map().dom().contains(k) && 0 <= i < self.shader_variants.map()[k].len()
            ==> #[trigger] self.shader_variants.map()[k][i].0 < self.next_id
    }

    /// The handle of each known shader.
    pub closed spec fn shaders(&self) -> Map<Seq<char>, u64> {
        self.shaders.map()
    }

    /// The variants of each shader that has any: handle and defines.
    pub closed spec fn variants(&self) -> Map<Seq<char>, Seq<(u64, Seq<(Seq<char>, Seq<char>)>)>> {
        self.shader_variants.map()
    }

    /// The handle the next new shader or variant gets.
    pub closed spec fn next_handle(&self) -> u64 {
        self.next_id
    }

    pub fn new() -> (c: Self)
        ensures
            c.wf(),
            c.shaders() == Map::<Seq<char>, u64>::empty(),
            c.variants() == Map::<Seq<char>, Seq<(u64, Seq<(Seq<char>, Seq<char>)>)>>::empty(),
            c.next_handle() == 0,
    {
        ShaderCache { shaders: AssocMap::new(), shader_variants: AssocMap::new(), next_id: 0 }
    }

    /// The shader at `path`: the cached handle, or a new one that the
    /// engine compiles the shader behind.
    pub fn get_shader(&mut self, path: &str) -> (h: ShaderRef)
        requires
            old(self).wf(),
            old(self).next_handle() < u64::MAX,
        ensures
            final(self).wf(),
            final(self).variants() == old(self).variants(),
            cache_get(old(self).shaders(), old(self).next_handle(), path@, h@, final(self).shaders(), final(self).next_handle()),
    {
        let key = path.to_string();
        match self.shaders.get(&key) {
            Some(h) => *h,
            None => {
                let h = ShaderRef { id: self.next_id };
                self.shaders.insert(key, h);
                self.next_id = self.next_id + 1;
                h
            },
        }
    }

    /// Makes a variant of the shader at `base_shader` with `defines`: the
    /// shader is got first (compiled if new), then the variant gets a new
    /// handle and joins the end of the shader's variants.
    pub fn create_shader_variant(&mut self, base_shader: &str, defines: &Vec<(String, String)>) -> (v: ShaderVariantRef)
        requires
            old(self).wf(),
            old(self).next_handle() + 1 < u64::MAX,
        ensures
            final(self).wf(),
            old(self).shaders().dom().contains(base_shader@) ==> final(self).shaders() == old(self).shaders()
                && v.id == old(self).next_handle(),
            !old(self).shaders().dom().contains(base_shader@) ==>
                final(self).shaders() == old(self).shaders().insert(base_shader@, old(self).next_handle())
                && v.id == old(self).next_handle() + 1,
            final(self).next_handle() == v.id + 1,
            final(self).variants() == old(self).variants().insert(base_shader@,
                (if old(self).variants().dom().contains(base_shader@) { old(self).variants()[base_shader@] } else { Seq::empty() })
                    .push((v.id, defines_view(defines@)))),
    {
        let _ = self.get_shader(base_shader);
        let v = ShaderVariantRef { id: self.next_id };
        let key = base_shader.to_string();
        let mut list = match self.shader_variants.remove(&key) {
            Some(l) => l,
            None => ShaderVariants { items: Vec::new() },
        };
        let ghost prev = list@;
        assert(prev == (if old(self).variants().dom().contains(base_shader@) { old(self).variants()[base_shader@] }
            else { Seq::<(u64, Seq<(Seq<char>, Seq<char>)>)>::empty() }));
        list.items.push(ShaderVariant { handle: v, defines: copy_defines(defines) });
        proof {
            assert(list@ =~= prev.push((v.id, defines_view(defines@))));
        }
        self.shader_variants.insert(key, list);
        self.next_id = self.next_id + 1;
        proof {
            assert(self.variants() =~= old(self).variants().insert(base_shader@,
                (if old(self).variants().dom().contains(base_shader@) { old(self).variants()[base_shader@] } else { Seq::empty() })
                    .push((v.id, defines_view(defines@)))));
        }
        v
    }
}

} // verus!
