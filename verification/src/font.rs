use vstd::prelude::*;
use std::collections::HashMap;
use crate::assets::TextureKey;
use crate::slots::null_key_bits;

verus! {

broadcast use vstd::std_specs::hash::group_hash_axioms;

/// Where the picture of a glyph comes from.
#[derive(Clone, Copy, Debug, PartialEq, Eq, Structural)]
pub enum GlyphRef {
    /// Glyph number `i` of the font's atlas description.
    Atlas(usize),
    /// The blank square glyph of the given side, used by a font whose atlas
    /// describes no glyph at all.
    Blank(u32),
}

/// Each code point described by `chars`, mapped to the position of its last
/// description: a later description of a character replaces an earlier one.
pub open spec fn last_index_map(chars: Seq<char>) -> Map<u32, usize>
    decreases chars.len(),
{
    if chars.len() == 0 {
        Map::empty()
    } else {
        last_index_map(chars.drop_last()).insert(
            chars.last() as u32,
            (chars.len() - 1) as usize,
        )
    }
}

/// The glyph a font draws for a character it has no glyph for: the last
/// description of `'?'`; failing that, the last glyph described; failing that,
/// a blank square as large as the font.
pub open spec fn missing_glyph(chars: Seq<char>, font_size: u32) -> GlyphRef {
    let map = last_index_map(chars);
    if map.contains_key('?' as u32) {
        GlyphRef::Atlas(map['?' as u32])
    } else if chars.len() > 0 {
        GlyphRef::Atlas((chars.len() - 1) as usize)
    } else {
        GlyphRef::Blank(font_size)
    }
}

/// Every index in the map points at a description of the character it is
/// stored under.
pub proof fn lemma_last_index_map_points_back(chars: Seq<char>, c: u32)
    requires
        last_index_map(chars).contains_key(c),
        chars.len() <= usize::MAX,
    ensures
        last_index_map(chars)[c] < chars.len(),
        chars[last_index_map(chars)[c] as int] as u32 == c,
        forall|j: int| last_index_map(chars)[c] < j < chars.len() ==> chars[j] as u32 != c,
    decreases chars.len(),
{
    if chars.len() > 0 && chars.last() as u32 != c {
        let rest = chars.drop_last();
        lemma_last_index_map_points_back(rest, c);
        let i = last_index_map(rest)[c] as int;
        assert(rest[i] == chars[i]);
        assert forall|j: int| last_index_map(chars)[c] < j < chars.len() implies chars[j] as u32 != c by {
            if j < chars.len() - 1 {
                assert(rest[j] == chars[j]);
            } else {
                assert(chars[j] == chars.last());
            }
        }
    }
}

/// A character is in the map exactly when the font describes it.
pub proof fn lemma_last_index_map_domain(chars: Seq<char>, c: u32)
    ensures
        last_index_map(chars).contains_key(c) <==> exists|j: int| 0 <= j < chars.len() && chars[j] as u32 == c,
    decreases chars.len(),
{
    if chars.len() > 0 {
        lemma_last_index_map_domain(chars.drop_last(), c);
        if last_index_map(chars.drop_last()).contains_key(c) {
            let j = choose|j: int| 0 <= j < chars.len() - 1 && chars.drop_last()[j] as u32 == c;
            assert(chars[j] as u32 == c);
        }
        if exists|j: int| 0 <= j < chars.len() && chars[j] as u32 == c {
            let j = choose|j: int| 0 <= j < chars.len() && chars[j] as u32 == c;
            if j < chars.len() - 1 {
                assert(chars.drop_last()[j] as u32 == c);
            }
        }
    }
}

/// Two characters with the same code point are the same character.
proof fn lemma_char_code_injective(a: char, b: char)
    requires
        a as u32 == b as u32,
    ensures
        a == b,
{
}

/// Glyph lookup in a font made by `Font::create` from the descriptions
/// `chars`: a character that is described draws its last description; any
/// other character draws the fallback glyph, which is the last description of
/// `'?'` when there is one, and a described glyph whenever any is described.
pub proof fn lemma_glyph_lookup(f: Font, chars: Seq<char>, font_size: u32, chr: char)
    requires
        f.glyphs() == last_index_map(chars),
        f.fallback() == missing_glyph(chars, font_size),
        chars.len() <= usize::MAX,
    ensures
        (exists|j: int| 0 <= j < chars.len() && chars[j] == chr) ==> {
            &&& f.glyph_of(chr) matches GlyphRef::Atlas(i)
            &&& i < chars.len()
            &&& chars[i as int] == chr
            &&& forall|j: int| i < j < chars.len() ==> chars[j] != chr
        },
        !(exists|j: int| 0 <= j < chars.len() && chars[j] == chr) ==> f.glyph_of(chr) == f.fallback(),
        chars.len() > 0 ==> (f.fallback() matches GlyphRef::Atlas(i) && i < chars.len()),
        chars.contains('?') ==> f.fallback() == f.glyph_of('?'),
{
    lemma_last_index_map_domain(chars, chr as u32);
    if last_index_map(chars).contains_key(chr as u32) {
        lemma_last_index_map_points_back(chars, chr as u32);
        let i = last_index_map(chars)[chr as u32] as int;
        assert(chars[i] as u32 == chr as u32);
        lemma_char_code_injective(chars[i], chr);
        assert forall|j: int| i < j < chars.len() implies chars[j] != chr by {
            assert(chars[j] as u32 != chr as u32);
        }
    } else {
        assert forall|j: int| 0 <= j < chars.len() implies chars[j] != chr by {
            assert(chars[j] as u32 != chr as u32);
        }
    }
    lemma_last_index_map_domain(chars, '?' as u32);
    if last_index_map(chars).contains_key('?' as u32) {
        lemma_last_index_map_points_back(chars, '?' as u32);
    }
    if chars.contains('?') {
        let j = choose|j: int| 0 <= j < chars.len() && chars[j] == '?';
        assert(chars[j] as u32 == '?' as u32);
    }
}

/// The glyph table of a bitmap font: which glyph of the atlas description to
/// draw for each character, and what to draw for the others.
pub struct Font {
    atlas: TextureKey,
    mapping: HashMap<u32, usize>,
    missing: GlyphRef,
    size: u32,
}

impl Font {
    /// The atlas texture the glyphs are cut from.
    pub closed spec fn atlas_key(&self) -> TextureKey {
        self.atlas
    }

    /// Each described code point, with the glyph drawn for it.
    pub closed spec fn glyphs(&self) -> Map<u32, usize> {
        self.mapping@
    }

    /// The glyph drawn for characters that are not described.
    pub closed spec fn fallback(&self) -> GlyphRef {
        self.missing
    }

    /// The font size the atlas was rendered at.
    pub closed spec fn font_size(&self) -> u32 {
        self.size
    }

    /// The glyph drawn for `chr`.
    pub open spec fn glyph_of(&self, chr: char) -> GlyphRef {
        if self.glyphs().contains_key(chr as u32) {
            GlyphRef::Atlas(self.glyphs()[chr as u32])
        } else {
            self.fallback()
        }
    }

    /// The font whose atlas `atlas` holds the glyphs described, in order, by
    /// `chars`, rendered at `font_size`.
    pub fn create(chars: &Vec<char>, font_size: u32, atlas: TextureKey) -> (f: Font)
        ensures
            f.atlas_key() == atlas,
            f.glyphs() == last_index_map(chars@),
            f.fallback() == missing_glyph(chars@, font_size),
            f.font_size() == font_size,
    {
        let mut mapping: HashMap<u32, usize> = HashMap::with_capacity(chars.len());
        let n = chars.len();
        let mut i: usize = 0;
        while i < n
            invariant
                n == chars@.len(),
                i <= n,
                mapping@ == last_index_map(chars@.take(i as int)),
            decreases n - i,
        {
            assert(chars@.take(i + 1).drop_last() =~= chars@.take(i as int));
            mapping.insert(chars[i] as u32, i);
            i = i + 1;
        }
        assert(chars@.take(n as int) =~= chars@);
        let missing = match mapping.get(&('?' as u32)) {
            Some(q) => GlyphRef::Atlas(*q),
            None => {
                if n > 0 {
                    GlyphRef::Atlas(n - 1)
                } else {
                    GlyphRef::Blank(font_size)
                }
            },
        };
        Font { atlas, mapping, missing, size: font_size }
    }

    /// The font that stands in for a missing one: no glyphs, size 32, on the
    /// null atlas key.
    pub fn placeholder() -> (f: Font)
        ensures
            f.atlas_key()@ == null_key_bits(),
            f.glyphs() == Map::<u32, usize>::empty(),
            f.fallback() == GlyphRef::Blank(32),
            f.font_size() == 32,
    {
        let none: Vec<char> = Vec::new();
        let f = Font::create(&none, 32, TextureKey::null());
        assert(f.glyphs() =~= Map::<u32, usize>::empty());
        f
    }

    /// The atlas texture the glyphs are cut from.
    pub fn atlas(&self) -> (k: TextureKey)
        ensures
            k == self.atlas_key(),
    {
        self.atlas
    }

    /// The font size the atlas was rendered at.
    pub fn size(&self) -> (s: u32)
        ensures
            s == self.font_size(),
    {
        self.size
    }

    /// The glyph drawn for characters the font does not describe.
    pub fn missing_glyph(&self) -> (g: GlyphRef)
        ensures
            g == self.fallback(),
    {
        self.missing
    }

    /// The glyph drawn for `chr`: its own when the font describes it, the
    /// fallback glyph otherwise.
    pub fn glyph_for(&self, chr: char) -> (g: GlyphRef)
        ensures
            g == self.glyph_of(chr),
    {
        match self.mapping.get(&(chr as u32)) {
            Some(i) => GlyphRef::Atlas(*i),
            None => self.missing,
        }
    }
}

} // verus!
