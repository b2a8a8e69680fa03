use vstd::prelude::*;
use vstd::hash_map::StringHashMap;
use crate::slots::{KeySlots, slot_contents, canonical_key_bits, null_key, null_key_bits};

verus! {

/// Key of a texture in the asset manager.
#[derive(Clone, Copy, Debug, PartialEq, Eq, Hash, Structural)]
pub struct TextureKey {
    bits: u64,
}

impl View for TextureKey {
    type V = u64;

    closed spec fn view(&self) -> u64 {
        self.bits
    }
}

impl TextureKey {
    /// The key's 64-bit form, as slotmap's `KeyData::as_ffi` gives it.
    pub fn as_ffi(self) -> (bits: u64)
        ensures
            bits == self@,
    {
        self.bits
    }

    /// The key whose 64-bit form is `bits`.
    pub(crate) fn from_ffi(bits: u64) -> (k: TextureKey)
        ensures
            k@ == bits,
    {
        TextureKey { bits }
    }

    /// The key whose 64-bit form is `bits`.
    pub closed spec fn from_bits(bits: u64) -> TextureKey {
        TextureKey { bits }
    }

    /// A key is its 64-bit form.
    pub proof fn lemma_from_bits(bits: u64, k: TextureKey)
        ensures
            Self::from_bits(bits)@ == bits,
            (Self::from_bits(bits) == k) <==> (k@ == bits),
    {
    }

    /// The key that never names a texture.
    pub fn null() -> (k: TextureKey)
        ensures
            k@ == null_key_bits(),
    {
        TextureKey { bits: null_key() }
    }
}


/// Key of a font in the asset manager.
#[derive(Clone, Copy, Debug, PartialEq, Eq, Hash, Structural)]
pub struct FontKey {
    bits: u64,
}

impl View for FontKey {
    type V = u64;

    closed spec fn view(&self) -> u64 {
        self.bits
    }
}

impl FontKey {
    /// The key's 64-bit form, as slotmap's `KeyData::as_ffi` gives it.
    pub fn as_ffi(self) -> (bits: u64)
        ensures
            bits == self@,
    {
        self.bits
    }

    /// The key whose 64-bit form is `bits`.
    pub closed spec fn from_bits(bits: u64) -> FontKey {
        FontKey { bits }
    }

    /// A key is its 64-bit form.
    pub proof fn lemma_from_bits(bits: u64, k: FontKey)
        ensures
            Self::from_bits(bits)@ == bits,
            (Self::from_bits(bits) == k) <==> (k@ == bits),
    {
    }

    /// The key that never names a font.
    pub fn null() -> (k: FontKey)
        ensures
            k@ == null_key_bits(),
    {
        FontKey { bits: null_key() }
    }
}

} // verus!

verus! {

/// The names and handles of one kind of asset. Each asset has a key, handed
/// out by a slot map, under which its handle is stored; a name maps to the key
/// of the asset last created under that name. A handle is what the caller uses
/// to find the asset itself (a GPU texture or a font) in its own storage.
pub struct AssetTable {
    slots: KeySlots,
    names: StringHashMap<u64>,
    missing: u64,
}

impl AssetTable {
    /// The handle stored under each live key.
    pub closed spec fn handles(&self) -> Map<u64, u64> {
        slot_contents(self.slots)
    }

    /// The key that each registered name maps to.
    pub closed spec fn names(&self) -> Map<Seq<char>, u64> {
        self.names@
    }

    /// The handle answered for a name or a key that names no asset.
    pub closed spec fn missing(&self) -> u64 {
        self.missing
    }

    /// Well-formedness: every name maps to a live key, every live key is in
    /// the form that slotmap hands out, and the null key is never live.
    pub closed spec fn wf(&self) -> bool {
        &&& self.handles().dom().finite()
        &&& forall|k: u64| #[trigger] self.handles().dom().contains(k) ==> canonical_key_bits(k)
        &&& !self.handles().dom().contains(null_key_bits())
        &&& forall|n: Seq<char>| #[trigger]
            self.names@.contains_key(n) ==> self.handles().dom().contains(self.names@[n])
    }

    /// Every registered name resolves to a live key.
    pub proof fn lemma_names_resolve(&self, name: Seq<char>)
        requires
            self.wf(),
            self.names().contains_key(name),
        ensures
            self.handles().dom().contains(self.names()[name]),
    {
    }

    /// The handle of the asset that `name` maps to.
    pub open spec fn named(&self, name: Seq<char>) -> Option<u64> {
        if self.names().contains_key(name) {
            self.handles().get(self.names()[name])
        } else {
            None
        }
    }

    /// The handle stored under `key`.
    pub open spec fn keyed(&self, key: u64) -> Option<u64> {
        self.handles().get(key)
    }

    /// `self` is `before` with `handle` stored under `key` and `name` mapped
    /// to `key`.
    pub open spec fn is_insert_of(&self, before: AssetTable, key: u64, name: Seq<char>, handle: u64) -> bool {
        &&& self.handles() == before.handles().insert(key, handle)
        &&& self.names() == before.names().insert(name, key)
        &&& self.missing() == before.missing()
    }

    /// Reading back a registration: once `handle` is stored under the fresh
    /// key `key` and `name` maps to it, the name and the key both find
    /// `handle`, while every other name and every other key finds what it
    /// found before.
    pub proof fn lemma_insert_then_find(
        before: AssetTable,
        after: AssetTable,
        key: u64,
        name: Seq<char>,
        handle: u64,
    )
        requires
            before.wf(),
            !before.handles().dom().contains(key),
            after.is_insert_of(before, key, name, handle),
        ensures
            after.named(name) == Some(handle),
            after.keyed(key) == Some(handle),
            forall|k: u64| k != key ==> #[trigger] after.keyed(k) == before.keyed(k),
            forall|n: Seq<char>| n != name ==> #[trigger] after.named(n) == before.named(n),
    {
        assert forall|n: Seq<char>| n != name implies #[trigger] after.named(n) == before.named(n) by {
            if before.names().contains_key(n) {
                assert(before.handles().dom().contains(before.names()[n]));
            }
        }
    }

    /// An empty table whose missing asset has handle `missing`.
    pub fn new(missing: u64) -> (t: AssetTable)
        ensures
            t.wf(),
            t.handles() == Map::<u64, u64>::empty(),
            t.names() == Map::<Seq<char>, u64>::empty(),
            t.missing() == missing,
    {
        AssetTable { slots: KeySlots::new(), names: StringHashMap::new(), missing }
    }

    /// Number of assets in the table.
    pub fn count(&self) -> (n: usize)
        ensures
            n == self.handles().len(),
    {
        self.slots.len()
    }

    /// Stores `handle` under a fresh key and makes `name` map to that key.
    pub fn insert(&mut self, name: String, handle: u64) -> (key: u64)
        requires
            old(self).wf(),
            old(self).handles().len() + 1 < u32::MAX,
        ensures
            final(self).wf(),
            !old(self).handles().dom().contains(key),
            key != null_key_bits(),
            final(self).handles() == old(self).handles().insert(key, handle),
            final(self).names() == old(self).names().insert(name@, key),
            final(self).missing() == old(self).missing(),
    {
        let key = self.slots.insert(handle);
        self.names.insert(name, key);
        key
    }

    /// The key and handle of the asset that `name` maps to.
    pub fn find(&self, name: &str) -> (found: Option<(u64, u64)>)
        requires
            self.wf(),
        ensures
            match found {
                Some((k, h)) => self.names().contains_key(name@) && k == self.names()[name@]
                    && h == self.handles()[k],
                None => !self.names().contains_key(name@),
            },
    {
        match self.names.get(name) {
            Some(k) => {
                let k = *k;
                match self.slots.get(k) {
                    Some(h) => Some((k, h)),
                    None => {
                        proof {
                            assert(self.handles().dom().contains(k));
                        }
                        None
                    },
                }
            },
            None => None,
        }
    }

    /// The handle stored under `key`, if the key is live.
    pub fn get(&self, key: u64) -> (h: Option<u64>)
        requires
            self.wf(),
        ensures
            h == self.handles().get(key),
    {
        if key_is_canonical(key) {
            self.slots.get(key)
        } else {
            None
        }
    }
}

/// Whether `bits` has the odd version that every key handed out by slotmap has.
fn key_is_canonical(bits: u64) -> (b: bool)
    ensures
        b == canonical_key_bits(bits),
{
    let b = (bits >> 32u64) & 1u64 == 1u64;
    assert(b == ((bits / 0x1_0000_0000) % 2 == 1)) by (bit_vector)
        requires
            b == ((bits >> 32u64) & 1u64 == 1u64),
    ;
    b
}

} // verus!

verus! {

/// A texture found by name or key, or the missing texture in its place.
#[derive(Clone, Copy, Debug, PartialEq, Eq, Structural)]
pub enum TextureOrMissing {
    Texture(u64),
    Missing(u64),
}

impl TextureOrMissing {
    /// The handle of the texture, found or missing.
    pub fn inner(self) -> (h: u64)
        ensures
            h == match self {
                TextureOrMissing::Texture(t) => t,
                TextureOrMissing::Missing(t) => t,
            },
    {
        match self {
            TextureOrMissing::Texture(t) => t,
            TextureOrMissing::Missing(t) => t,
        }
    }
}

/// A font found by name or key, or the missing font in its place.
#[derive(Clone, Copy, Debug, PartialEq, Eq, Structural)]
pub enum FontOrMissing {
    Font(u64),
    Missing(u64),
}

impl FontOrMissing {
    /// The handle of the font, found or missing.
    pub fn inner(self) -> (h: u64)
        ensures
            h == match self {
                FontOrMissing::Font(f) => f,
                FontOrMissing::Missing(m) => m,
            },
    {
        match self {
            FontOrMissing::Font(f) => f,
            FontOrMissing::Missing(m) => m,
        }
    }
}

/// The name under which a font's atlas texture is registered.
pub open spec fn atlas_texture_name(font_name: Seq<char>) -> Seq<char> {
    "ATLAS["@ + font_name + "]"@
}

/// `"ATLAS[" + font_name + "]"`.
fn atlas_name(font_name: &str) -> (n: String)
    ensures
        n@ == atlas_texture_name(font_name@),
{
    let mut n = "ATLAS[".to_owned();
    n.append(font_name);
    n.append("]");
    n
}

/// Keeps every texture and font by key and by name. The textures and fonts
/// themselves live with the caller, which gives each a handle; the manager
/// maps names and keys to those handles and answers the missing texture or
/// font for a name or key that names none.
pub struct AssetManager {
    textures: AssetTable,
    fonts: AssetTable,
}

impl AssetManager {
    pub closed spec fn textures(&self) -> AssetTable {
        self.textures
    }

    pub closed spec fn fonts(&self) -> AssetTable {
        self.fonts
    }

    pub open spec fn wf(&self) -> bool {
        self.textures().wf() && self.fonts().wf()
    }

    /// What `texture_by_name(name)` answers.
    pub open spec fn texture_named(&self, name: Seq<char>) -> TextureOrMissing {
        match self.textures().named(name) {
            Some(h) => TextureOrMissing::Texture(h),
            None => TextureOrMissing::Missing(self.textures().missing()),
        }
    }

    /// What `texture_by_id(key)` answers.
    pub open spec fn texture_keyed(&self, key: u64) -> TextureOrMissing {
        match self.textures().keyed(key) {
            Some(h) => TextureOrMissing::Texture(h),
            None => TextureOrMissing::Missing(self.textures().missing()),
        }
    }

    /// What `font_by_name(name)` answers.
    pub open spec fn font_named(&self, name: Seq<char>) -> FontOrMissing {
        match self.fonts().named(name) {
            Some(h) => FontOrMissing::Font(h),
            None => FontOrMissing::Missing(self.fonts().missing()),
        }
    }

    /// What `font_by_id(key)` answers.
    pub open spec fn font_keyed(&self, key: u64) -> FontOrMissing {
        match self.fonts().keyed(key) {
            Some(h) => FontOrMissing::Font(h),
            None => FontOrMissing::Missing(self.fonts().missing()),
        }
    }

    /// The null key names no texture and no font: looking it up answers the
    /// missing one.
    pub proof fn lemma_null_key_is_missing(&self)
        requires
            self.wf(),
        ensures
            self.texture_keyed(null_key_bits()) == TextureOrMissing::Missing(self.textures().missing()),
            self.font_keyed(null_key_bits()) == FontOrMissing::Missing(self.fonts().missing()),
    {
    }

    /// Reading back `create_texture`: once the texture with handle `image` is
    /// registered under `name` and the fresh key `key`, looking up `name` or
    /// `key` answers it, and every other name and key answers what it did
    /// before; a texture created earlier under `name` is still found by its
    /// key.
    pub proof fn lemma_created_texture_found(
        before: AssetManager,
        after: AssetManager,
        key: u64,
        name: Seq<char>,
        image: u64,
    )
        requires
            before.wf(),
            !before.textures().handles().dom().contains(key),
            after.textures().is_insert_of(before.textures(), key, name, image),
        ensures
            after.texture_named(name) == TextureOrMissing::Texture(image),
            after.texture_keyed(key) == TextureOrMissing::Texture(image),
            forall|k: u64| k != key ==> #[trigger] after.texture_keyed(k) == before.texture_keyed(k),
            forall|n: Seq<char>| n != name ==> #[trigger] after.texture_named(n) == before.texture_named(n),
    {
        AssetTable::lemma_insert_then_find(before.textures(), after.textures(), key, name, image);
        assert forall|k: u64| k != key implies #[trigger] after.texture_keyed(k) == before.texture_keyed(k) by {
            assert(after.textures().keyed(k) == before.textures().keyed(k));
        }
        assert forall|n: Seq<char>| n != name implies #[trigger] after.texture_named(n) == before.texture_named(n) by {
            assert(after.textures().named(n) == before.textures().named(n));
        }
    }

    /// Reading back a font registration: once the font with handle `font` is
    /// registered under `name` and the fresh key `key`, looking up `name` or
    /// `key` answers it, and every other name and key answers what it did
    /// before.
    pub proof fn lemma_created_font_found(
        before: AssetManager,
        after: AssetManager,
        key: u64,
        name: Seq<char>,
        font: u64,
    )
        requires
            before.wf(),
            !before.fonts().handles().dom().contains(key),
            after.fonts().is_insert_of(before.fonts(), key, name, font),
        ensures
            after.font_named(name) == FontOrMissing::Font(font),
            after.font_keyed(key) == FontOrMissing::Font(font),
            forall|k: u64| k != key ==> #[trigger] after.font_keyed(k) == before.font_keyed(k),
            forall|n: Seq<char>| n != name ==> #[trigger] after.font_named(n) == before.font_named(n),
    {
        AssetTable::lemma_insert_then_find(before.fonts(), after.fonts(), key, name, font);
        assert forall|k: u64| k != key implies #[trigger] after.font_keyed(k) == before.font_keyed(k) by {
            assert(after.fonts().keyed(k) == before.fonts().keyed(k));
        }
        assert forall|n: Seq<char>| n != name implies #[trigger] after.font_named(n) == before.font_named(n) by {
            assert(after.fonts().named(n) == before.fonts().named(n));
        }
    }

    /// An empty manager whose missing texture and missing font have the given
    /// handles.
    pub fn create(missing_texture: u64, missing_font: u64) -> (am: AssetManager)
        ensures
            am.wf(),
            am.textures().handles() == Map::<u64, u64>::empty(),
            am.textures().names() == Map::<Seq<char>, u64>::empty(),
            am.textures().missing() == missing_texture,
            am.fonts().handles() == Map::<u64, u64>::empty(),
            am.fonts().names() == Map::<Seq<char>, u64>::empty(),
            am.fonts().missing() == missing_font,
    {
        AssetManager { textures: AssetTable::new(missing_texture), fonts: AssetTable::new(missing_font) }
    }

    /// Number of textures created.
    pub fn texture_count(&self) -> (n: usize)
        ensures
            n == self.textures().handles().len(),
    {
        self.textures.count()
    }

    /// Number of fonts created.
    pub fn font_count(&self) -> (n: usize)
        ensures
            n == self.fonts().handles().len(),
    {
        self.fonts.count()
    }

    /// Registers the texture with handle `image` under a fresh key and `name`.
    /// A texture created earlier under the same name keeps its key.
    pub fn create_texture(&mut self, image: u64, name: String) -> (key: TextureKey)
        requires
            old(self).wf(),
            old(self).textures().handles().len() + 1 < u32::MAX,
        ensures
            final(self).wf(),
            !old(self).textures().handles().dom().contains(key@),
            key@ != null_key_bits(),
            final(self).textures().is_insert_of(old(self).textures(), key@, name@, image),
            final(self).fonts() == old(self).fonts(),
    {
        let bits = self.textures.insert(name, image);
        TextureKey { bits }
    }

    /// The texture named `name`; when there is none and `create` is given, the
    /// texture that `create` makes, registered under `name`.
    pub fn texture_or_create<F: FnOnce() -> u64>(&mut self, name: &str, create: Option<F>) -> (r:
        Option<(TextureKey, u64)>)
        requires
            old(self).wf(),
            !old(self).textures().names().contains_key(name@) ==> (create matches Some(f) ==> call_requires(f, ())),
            !old(self).textures().names().contains_key(name@) && create is Some
                ==> old(self).textures().handles().len() + 1 < u32::MAX,
        ensures
            final(self).wf(),
            final(self).fonts() == old(self).fonts(),
            old(self).textures().names().contains_key(name@) ==> {
                let k = old(self).textures().names()[name@];
                &&& r matches Some((key, h)) && key@ == k && h == old(self).textures().handles()[k]
                &&& final(self).textures() == old(self).textures()
            },
            !old(self).textures().names().contains_key(name@) && create is None ==> {
                &&& r is None
                &&& final(self).textures() == old(self).textures()
            },
            !old(self).textures().names().contains_key(name@) && create is Some ==> {
                &&& r matches Some((key, h))
                &&& call_ensures(create->0, (), h)
                &&& !old(self).textures().handles().dom().contains(key@)
                &&& key@ != null_key_bits()
                &&& final(self).textures().is_insert_of(old(self).textures(), key@, name@, h)
            },
    {
        match self.textures.find(name) {
            Some((k, h)) => Some((TextureKey { bits: k }, h)),
            None => match create {
                Some(f) => {
                    let h = f();
                    let key = self.create_texture(h, name.to_owned());
                    Some((key, h))
                },
                None => None,
            },
        }
    }

    /// The texture named `name`, or the missing texture.
    pub fn texture_by_name(&self, name: &str) -> (t: TextureOrMissing)
        requires
            self.wf(),
        ensures
            t == self.texture_named(name@),
    {
        match self.textures.find(name) {
            Some((_k, h)) => TextureOrMissing::Texture(h),
            None => TextureOrMissing::Missing(self.textures.missing),
        }
    }

    /// The texture with key `key`, or the missing texture.
    pub fn texture_by_id(&self, key: TextureKey) -> (t: TextureOrMissing)
        requires
            self.wf(),
        ensures
            t == self.texture_keyed(key@),
    {
        match self.textures.get(key.bits) {
            Some(h) => TextureOrMissing::Texture(h),
            None => TextureOrMissing::Missing(self.textures.missing),
        }
    }

    /// Registers a font: its atlas texture, with handle `atlas`, under
    /// `"ATLAS[" + name + "]"`, then the font that `build` makes from the atlas
    /// key and `glyphs`, under `name`.
    pub fn create_font<J, G: FnOnce(TextureKey, J) -> u64>(
        &mut self,
        atlas: u64,
        glyphs: J,
        name: String,
        build: G,
    ) -> (key: FontKey)
        requires
            old(self).wf(),
            old(self).textures().handles().len() + 1 < u32::MAX,
            old(self).fonts().handles().len() + 1 < u32::MAX,
            forall|k: TextureKey| call_requires(build, (k, glyphs)),
        ensures
            final(self).wf(),
            ({
                let atlas_key = final(self).textures().names()[atlas_texture_name(name@)];
                let font = final(self).fonts().handles()[key@];
                &&& !old(self).textures().handles().dom().contains(atlas_key)
                &&& atlas_key != null_key_bits()
                &&& final(self).textures().is_insert_of(
                    old(self).textures(),
                    atlas_key,
                    atlas_texture_name(name@),
                    atlas,
                )
                &&& call_ensures(build, (TextureKey::from_bits(atlas_key), glyphs), font)
                &&& final(self).fonts().is_insert_of(old(self).fonts(), key@, name@, font)
            }),
            !old(self).fonts().handles().dom().contains(key@),
            key@ != null_key_bits(),
    {
        let atlas_key = self.create_texture(atlas, atlas_name(name.as_str()));
        let font = build(atlas_key, glyphs);
        let bits = self.fonts.insert(name, font);
        FontKey { bits }
    }

    /// The font named `name`; when there is none and `create` is given, the
    /// font that `create_font` registers from the atlas handle and glyphs that
    /// `create` gives, with `build`.
    pub fn font_or_create<J, F: FnOnce() -> (u64, J), G: FnOnce(TextureKey, J) -> u64>(
        &mut self,
        name: &str,
        create: Option<F>,
        build: G,
    ) -> (r: Option<(FontKey, u64)>)
        requires
            old(self).wf(),
            !old(self).fonts().names().contains_key(name@) ==> (create matches Some(f) ==> call_requires(f, ())),
            !old(self).fonts().names().contains_key(name@) ==> forall|k: TextureKey, j: J| call_requires(build, (k, j)),
            !old(self).fonts().names().contains_key(name@) && create is Some ==> {
                &&& old(self).textures().handles().len() + 1 < u32::MAX
                &&& old(self).fonts().handles().len() + 1 < u32::MAX
            },
        ensures
            final(self).wf(),
            old(self).fonts().names().contains_key(name@) ==> {
                let k = old(self).fonts().names()[name@];
                &&& r matches Some((key, h)) && key@ == k && h == old(self).fonts().handles()[k]
                &&& final(self).fonts() == old(self).fonts()
                &&& final(self).textures() == old(self).textures()
            },
            !old(self).fonts().names().contains_key(name@) && create is None ==> {
                &&& r is None
                &&& final(self).fonts() == old(self).fonts()
                &&& final(self).textures() == old(self).textures()
            },
            !old(self).fonts().names().contains_key(name@) && create is Some ==> {
                let atlas_key = final(self).textures().names()[atlas_texture_name(name@)];
                let atlas = final(self).textures().handles()[atlas_key];
                &&& r matches Some((key, h))
                &&& !old(self).fonts().handles().dom().contains(key@)
                &&& key@ != null_key_bits()
                &&& final(self).fonts().is_insert_of(old(self).fonts(), key@, name@, h)
                &&& !old(self).textures().handles().dom().contains(atlas_key)
                &&& atlas_key != null_key_bits()
                &&& final(self).textures().is_insert_of(
                    old(self).textures(),
                    atlas_key,
                    atlas_texture_name(name@),
                    atlas,
                )
                &&& exists|j: J| #![trigger call_ensures(create->0, (), (atlas, j))]
                    {
                        &&& call_ensures(create->0, (), (atlas, j))
                        &&& call_ensures(build, (TextureKey::from_bits(atlas_key), j), h)
                    }
            },
    {
        match self.fonts.find(name) {
            Some((k, h)) => Some((FontKey { bits: k }, h)),
            None => match create {
                Some(f) => {
                    let (atlas, glyphs) = f();
                    let ghost made = (atlas, glyphs);
                    let key = self.create_font(atlas, glyphs, name.to_owned(), build);
                    let h = match self.fonts.get(key.bits) {
                        Some(h) => h,
                        None => {
                            proof {
                                assert(self.fonts().handles().dom().contains(key@));
                            }
                            0
                        },
                    };
                    proof {
                        let atlas_key = self.textures().names()[atlas_texture_name(name@)];
                        assert(self.textures().handles()[atlas_key] == made.0);
                        assert(call_ensures(f, (), (self.textures().handles()[atlas_key], made.1)));
                    }
                    Some((key, h))
                },
                None => None,
            },
        }
    }

    /// The font named `name`, or the missing font.
    pub fn font_by_name(&self, name: &str) -> (f: FontOrMissing)
        requires
            self.wf(),
        ensures
            f == self.font_named(name@),
    {
        match self.fonts.find(name) {
            Some((_k, h)) => FontOrMissing::Font(h),
            None => FontOrMissing::Missing(self.fonts.missing),
        }
    }

    /// The font with key `key`, or the missing font.
    pub fn font_by_id(&self, key: FontKey) -> (f: FontOrMissing)
        requires
            self.wf(),
        ensures
            f == self.font_keyed(key@),
    {
        match self.fonts.get(key.bits) {
            Some(h) => FontOrMissing::Font(h),
            None => FontOrMissing::Missing(self.fonts.missing),
        }
    }
}

} // verus!
