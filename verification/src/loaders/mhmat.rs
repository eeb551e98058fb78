//! `.mhmat` files: MakeHuman material definitions.
//!
//! ASCII `key value...` lines; blank lines and lines starting with `#` or
//! `//` are skipped. Colors take three numbers, scalars one number, texture
//! keys a file name and flags a boolean. A later line for the same key
//! replaces an earlier one; every texture line is kept, in order. Numbers
//! are kept as their text.
use vstd::prelude::*;
use crate::loaders::mhclo::opt_string_view;
use crate::text::{
    ascii_lowercase, chars_to_string, is_ascii_text, decode_lines, decoded, eq_str, has_prefix, lines, lowercase, split_whitespace,
    starts_with, string_views, to_lowercase, trim, trim_chars, views, words, TextError,
};
use vstd::utf8::valid_utf8;

verus! {

/// `matches!(s.to_lowercase().as_str(), "true" | "1" | "yes")`.
pub open spec fn parse_bool_spec(s: Seq<char>) -> bool {
    let l = lowercase(s);
    l == "true"@ || l == "1"@ || l == "yes"@
}

/// Reads a material flag: `true`, `1` or `yes` in any letter case.
pub fn parse_bool(s: &[char]) -> (r: bool)
    ensures
        r == parse_bool_spec(s@),
        is_ascii_text(s@) ==> r == (ascii_lowercase(s@) == "true"@ || ascii_lowercase(s@) == "1"@
            || ascii_lowercase(s@) == "yes"@),
{
    let l = to_lowercase(s);
    eq_str(&l, "true") || eq_str(&l, "1") || eq_str(&l, "yes")
}

/// Which texture a texture line names.
#[derive(Clone, Copy, Debug, PartialEq, Eq)]
pub enum TextureSlot {
    /// `diffuseTexture`
    Diffuse,
    /// `normalmapTexture`
    Normalmap,
    /// `aomapTexture`
    Aomap,
    /// `bumpTexture`
    Bump,
}

/// A parsed `.mhmat` file: the last value given for each key.
#[derive(Clone, Debug, PartialEq, Eq)]
pub struct MhmatFile {
    pub diffuse_color: Option<[String; 3]>,
    pub specular_color: Option<[String; 3]>,
    pub emissive_color: Option<[String; 3]>,
    pub opacity: Option<String>,
    pub shininess: Option<String>,
    pub metallic: Option<String>,
    pub roughness: Option<String>,
    pub ior: Option<String>,
    pub translucency: Option<String>,
    pub normalmap_intensity: Option<String>,
    /// Texture lines in file order.
    pub textures: Vec<(TextureSlot, String)>,
    pub backface_cull: Option<bool>,
    pub transparent: Option<bool>,
    pub shadeless: Option<bool>,
    pub alpha_to_coverage: Option<bool>,
}

/// How a material's color mixes with what lies behind it.
#[derive(Clone, Copy, Debug, PartialEq, Eq)]
pub enum AlphaChoice {
    /// Fully covering.
    Opaque,
    /// Blended by its alpha.
    Blend,
    /// Alpha turned into multisample coverage.
    AlphaToCoverage,
}

/// What a material's flags and texture lines decide for its rendering.
#[derive(Clone, Copy, Debug, PartialEq, Eq)]
pub struct MaterialChoice {
    pub alpha: AlphaChoice,
    /// Back faces are culled.
    pub cull_back_faces: bool,
    /// The base color is white, so that a diffuse texture shows untinted;
    /// otherwise the diffuse color is the base color.
    pub white_base: bool,
}

/// The value of a flag that a file may leave out.
pub open spec fn flag_or(f: Option<bool>, default: bool) -> bool {
    match f {
        Some(b) => b,
        None => default,
    }
}

/// The alpha mode: a transparent material, or one whose opacity is below
/// one, blends, or uses alpha-to-coverage where that flag is set; any
/// other material is opaque.
pub open spec fn alpha_choice_spec(transparent: bool, opacity_below_one: bool, to_coverage: bool) -> AlphaChoice {
    if transparent || opacity_below_one {
        if to_coverage {
            AlphaChoice::AlphaToCoverage
        } else {
            AlphaChoice::Blend
        }
    } else {
        AlphaChoice::Opaque
    }
}

/// A material that is transparent, or whose opacity is below one, is
/// never opaque: it uses alpha-to-coverage when that flag is set and blends
/// otherwise. Every other material is opaque, whatever the flag says.
pub proof fn lemma_alpha_choice(transparent: bool, opacity_below_one: bool, to_coverage: bool)
    ensures
        (alpha_choice_spec(transparent, opacity_below_one, to_coverage) == AlphaChoice::Opaque) == (
        !transparent && !opacity_below_one),
        (transparent || opacity_below_one) && !to_coverage ==> alpha_choice_spec(
            transparent,
            opacity_below_one,
            to_coverage,
        ) == AlphaChoice::Blend,
        (transparent || opacity_below_one) && to_coverage ==> alpha_choice_spec(
            transparent,
            opacity_below_one,
            to_coverage,
        ) == AlphaChoice::AlphaToCoverage,
{
}

/// Whether some texture line names a diffuse texture.
pub open spec fn has_diffuse_texture(t: Seq<(TextureSlot, String)>) -> bool {
    exists|i: int| 0 <= i < t.len() && (#[trigger] t[i]).0 == TextureSlot::Diffuse
}

impl MhmatFile {
    /// The rendering choices of this material, given whether its opacity
    /// is below one: back faces are culled unless `backfaceCull` says
    /// otherwise, the alpha mode follows `transparent`, the opacity and
    /// `alphaToCoverage` (both flags default to false), and the base color
    /// is white exactly when a diffuse texture is given.
    pub fn material_choice(&self, opacity_below_one: bool) -> (r: MaterialChoice)
        ensures
            r.alpha == alpha_choice_spec(
                flag_or(self.transparent, false),
                opacity_below_one,
                flag_or(self.alpha_to_coverage, false),
            ),
            r.cull_back_faces == flag_or(self.backface_cull, true),
            r.white_base == has_diffuse_texture(self.textures@),
            (r.alpha == AlphaChoice::Opaque) == (self.transparent != Some(true) && !opacity_below_one),
            (self.transparent == Some(true) || opacity_below_one) && self.alpha_to_coverage != Some(
                true,
            ) ==> r.alpha == AlphaChoice::Blend,
            (self.transparent == Some(true) || opacity_below_one) && self.alpha_to_coverage == Some(
                true,
            ) ==> r.alpha == AlphaChoice::AlphaToCoverage,
            r.cull_back_faces == (self.backface_cull != Some(false)),
            r.white_base == (exists|i: int|
                0 <= i < self.textures@.len() && (#[trigger] self.textures@[i]).0
                    == TextureSlot::Diffuse),
    {
        let transparent = match self.transparent {
            Some(b) => b,
            None => false,
        };
        let to_coverage = match self.alpha_to_coverage {
            Some(b) => b,
            None => false,
        };
        let alpha = if transparent || opacity_below_one {
            if to_coverage {
                AlphaChoice::AlphaToCoverage
            } else {
                AlphaChoice::Blend
            }
        } else {
            AlphaChoice::Opaque
        };
        let cull_back_faces = match self.backface_cull {
            Some(b) => b,
            None => true,
        };
        let mut white_base = false;
        let mut i: usize = 0;
        while i < self.textures.len()
            invariant
                i <= self.textures@.len(),
                white_base == exists|j: int|
                    0 <= j < i && (#[trigger] self.textures@[j]).0 == TextureSlot::Diffuse,
            decreases self.textures@.len() - i,
        {
            let is_diffuse = match self.textures[i].0 {
                TextureSlot::Diffuse => true,
                _ => false,
            };
            if is_diffuse {
                white_base = true;
                assert(self.textures@[i as int].0 == TextureSlot::Diffuse);
            }
            i = i + 1;
        }
        MaterialChoice { alpha, cull_back_faces, white_base }
    }
}

/// The plain-value form of an [`MhmatFile`].
pub struct MhmatView {
    pub diffuse_color: Option<Seq<Seq<char>>>,
    pub specular_color: Option<Seq<Seq<char>>>,
    pub emissive_color: Option<Seq<Seq<char>>>,
    pub opacity: Option<Seq<char>>,
    pub shininess: Option<Seq<char>>,
    pub metallic: Option<Seq<char>>,
    pub roughness: Option<Seq<char>>,
    pub ior: Option<Seq<char>>,
    pub translucency: Option<Seq<char>>,
    pub normalmap_intensity: Option<Seq<char>>,
    pub textures: Seq<(TextureSlot, Seq<char>)>,
    pub backface_cull: Option<bool>,
    pub transparent: Option<bool>,
    pub shadeless: Option<bool>,
    pub alpha_to_coverage: Option<bool>,
}

pub open spec fn opt_color_view(c: Option<[String; 3]>) -> Option<Seq<Seq<char>>> {
    match c {
        Some(a) => Some(string_views(a@)),
        None => None,
    }
}

pub open spec fn texture_views(t: Seq<(TextureSlot, String)>) -> Seq<(TextureSlot, Seq<char>)> {
    t.map_values(|e: (TextureSlot, String)| (e.0, e.1@))
}

impl View for MhmatFile {
    type V = MhmatView;

    open spec fn view(&self) -> MhmatView {
        MhmatView {
            diffuse_color: opt_color_view(self.diffuse_color),
            specular_color: opt_color_view(self.specular_color),
            emissive_color: opt_color_view(self.emissive_color),
            opacity: opt_string_view(self.opacity),
            shininess: opt_string_view(self.shininess),
            metallic: opt_string_view(self.metallic),
            roughness: opt_string_view(self.roughness),
            ior: opt_string_view(self.ior),
            translucency: opt_string_view(self.translucency),
            normalmap_intensity: opt_string_view(self.normalmap_intensity),
            textures: texture_views(self.textures@),
            backface_cull: self.backface_cull,
            transparent: self.transparent,
            shadeless: self.shadeless,
            alpha_to_coverage: self.alpha_to_coverage,
        }
    }
}

/// The material before any line is read.
pub open spec fn empty_mhmat() -> MhmatView {
    MhmatView {
        diffuse_color: None,
        specular_color: None,
        emissive_color: None,
        opacity: None,
        shininess: None,
        metallic: None,
        roughness: None,
        ior: None,
        translucency: None,
        normalmap_intensity: None,
        textures: seq![],
        backface_cull: None,
        transparent: None,
        shadeless: None,
        alpha_to_coverage: None,
    }
}

/// What one line does to the material.
pub open spec fn mhmat_step(m: MhmatView, line: Seq<char>) -> MhmatView {
    let t = trim(line);
    let p = words(t);
    if t.len() == 0 || t[0] == '#' || has_prefix(t, "//"@) || p.len() == 0 {
        m
    } else {
        let k = p[0];
        if k == "diffuseColor"@ && p.len() >= 4 {
            MhmatView { diffuse_color: Some(p.subrange(1, 4)), ..m }
        } else if k == "specularColor"@ && p.len() >= 4 {
            MhmatView { specular_color: Some(p.subrange(1, 4)), ..m }
        } else if k == "emissiveColor"@ && p.len() >= 4 {
            MhmatView { emissive_color: Some(p.subrange(1, 4)), ..m }
        } else if p.len() < 2 {
            m
        } else if k == "opacity"@ {
            MhmatView { opacity: Some(p[1]), ..m }
        } else if k == "shininess"@ {
            MhmatView { shininess: Some(p[1]), ..m }
        } else if k == "metallic"@ {
            MhmatView { metallic: Some(p[1]), ..m }
        } else if k == "roughness"@ {
            MhmatView { roughness: Some(p[1]), ..m }
        } else if k == "ior"@ {
            MhmatView { ior: Some(p[1]), ..m }
        } else if k == "translucency"@ {
            MhmatView { translucency: Some(p[1]), ..m }
        } else if k == "normalmapIntensity"@ {
            MhmatView { normalmap_intensity: Some(p[1]), ..m }
        } else if k == "diffuseTexture"@ {
            MhmatView { textures: m.textures.push((TextureSlot::Diffuse, p[1])), ..m }
        } else if k == "normalmapTexture"@ {
            MhmatView { textures: m.textures.push((TextureSlot::Normalmap, p[1])), ..m }
        } else if k == "aomapTexture"@ {
            MhmatView { textures: m.textures.push((TextureSlot::Aomap, p[1])), ..m }
        } else if k == "bumpTexture"@ {
            MhmatView { textures: m.textures.push((TextureSlot::Bump, p[1])), ..m }
        } else if k == "backfaceCull"@ {
            MhmatView { backface_cull: Some(parse_bool_spec(p[1])), ..m }
        } else if k == "transparent"@ {
            MhmatView { transparent: Some(parse_bool_spec(p[1])), ..m }
        } else if k == "shadeless"@ {
            MhmatView { shadeless: Some(parse_bool_spec(p[1])), ..m }
        } else if k == "alphaToCoverage"@ {
            MhmatView { alpha_to_coverage: Some(parse_bool_spec(p[1])), ..m }
        } else {
            m
        }
    }
}

/// The material after the given lines.
pub open spec fn mhmat_spec(ls: Seq<Seq<char>>) -> MhmatView
    decreases ls.len(),
{
    if ls.len() == 0 {
        empty_mhmat()
    } else {
        mhmat_step(mhmat_spec(ls.drop_last()), ls.last())
    }
}

/// Whether a trimmed line is blank or a comment.
pub open spec fn is_comment(t: Seq<char>) -> bool {
    t.len() == 0 || t[0] == '#' || has_prefix(t, "//"@)
}

/// The second word of a line whose first word is `key` (the line trimmed,
/// not a comment, and of at least two words).
pub open spec fn value_line(line: Seq<char>, key: Seq<char>) -> Option<Seq<char>> {
    let t = trim(line);
    let p = words(t);
    if !is_comment(t) && p.len() >= 2 && p[0] == key {
        Some(p[1])
    } else {
        None
    }
}

/// The value that the last line of `ls` with first word `key` gives (see
/// `value_line`), if any.
pub open spec fn last_value(ls: Seq<Seq<char>>, key: Seq<char>) -> Option<Seq<char>>
    decreases ls.len(),
{
    if ls.len() == 0 {
        None
    } else if value_line(ls.last(), key) is Some {
        value_line(ls.last(), key)
    } else {
        last_value(ls.drop_last(), key)
    }
}

/// The keys of the scalar values.
pub open spec fn is_scalar_key(key: Seq<char>) -> bool {
    ||| key == "opacity"@
    ||| key == "shininess"@
    ||| key == "metallic"@
    ||| key == "roughness"@
    ||| key == "ior"@
    ||| key == "translucency"@
    ||| key == "normalmapIntensity"@
}

/// The scalar of a material that `key` names.
pub open spec fn scalar_field(m: MhmatView, key: Seq<char>) -> Option<Seq<char>> {
    if key == "opacity"@ {
        m.opacity
    } else if key == "shininess"@ {
        m.shininess
    } else if key == "metallic"@ {
        m.metallic
    } else if key == "roughness"@ {
        m.roughness
    } else if key == "ior"@ {
        m.ior
    } else if key == "translucency"@ {
        m.translucency
    } else {
        m.normalmap_intensity
    }
}

/// The keys of the flags.
pub open spec fn is_flag_key(key: Seq<char>) -> bool {
    ||| key == "backfaceCull"@
    ||| key == "transparent"@
    ||| key == "shadeless"@
    ||| key == "alphaToCoverage"@
}

/// The flag of a material that `key` names.
pub open spec fn flag_field(m: MhmatView, key: Seq<char>) -> Option<bool> {
    if key == "backfaceCull"@ {
        m.backface_cull
    } else if key == "transparent"@ {
        m.transparent
    } else if key == "shadeless"@ {
        m.shadeless
    } else {
        m.alpha_to_coverage
    }
}

/// A line changes the scalar named by `key` only when its first word is
/// `key` and it has a second word; it then sets the scalar to that word.
pub proof fn lemma_mhmat_scalar_step(m: MhmatView, line: Seq<char>, key: Seq<char>)
    requires
        is_scalar_key(key),
    ensures
        scalar_field(mhmat_step(m, line), key) == match value_line(line, key) {
            Some(v) => Some(v),
            None => scalar_field(m, key),
        },
{
    reveal_strlit("diffuseColor");
    reveal_strlit("specularColor");
    reveal_strlit("emissiveColor");
    reveal_strlit("opacity");
    reveal_strlit("shininess");
    reveal_strlit("metallic");
    reveal_strlit("roughness");
    reveal_strlit("ior");
    reveal_strlit("translucency");
    reveal_strlit("normalmapIntensity");
    reveal_strlit("diffuseTexture");
    reveal_strlit("normalmapTexture");
    reveal_strlit("aomapTexture");
    reveal_strlit("bumpTexture");
    reveal_strlit("backfaceCull");
    reveal_strlit("transparent");
    reveal_strlit("shadeless");
    reveal_strlit("alphaToCoverage");
    assert("diffuseColor"@[0] != "translucency"@[0]);
    assert("diffuseColor"@[0] != "aomapTexture"@[0]);
    assert("diffuseColor"@[0] != "backfaceCull"@[0]);
    assert("specularColor"@[0] != "emissiveColor"@[0]);
    assert("shininess"@[0] != "roughness"@[0]);
    assert("shininess"@[2] != "shadeless"@[2]);
    assert("roughness"@[0] != "shadeless"@[0]);
    assert("translucency"@[0] != "aomapTexture"@[0]);
    assert("translucency"@[0] != "backfaceCull"@[0]);
    assert("aomapTexture"@[0] != "backfaceCull"@[0]);
    assert("bumpTexture"@[0] != "transparent"@[0]);
}

/// A line changes the flag named by `key` only when its first word is `key`
/// and it has a second word; it then sets the flag to whether that word
/// reads as true.
#[verifier::rlimit(40)]
pub proof fn lemma_mhmat_flag_step(m: MhmatView, line: Seq<char>, key: Seq<char>)
    requires
        is_flag_key(key),
    ensures
        flag_field(mhmat_step(m, line), key) == match value_line(line, key) {
            Some(v) => Some(parse_bool_spec(v)),
            None => flag_field(m, key),
        },
{
    reveal_strlit("diffuseColor");
    reveal_strlit("specularColor");
    reveal_strlit("emissiveColor");
    reveal_strlit("opacity");
    reveal_strlit("shininess");
    reveal_strlit("metallic");
    reveal_strlit("roughness");
    reveal_strlit("ior");
    reveal_strlit("translucency");
    reveal_strlit("normalmapIntensity");
    reveal_strlit("diffuseTexture");
    reveal_strlit("normalmapTexture");
    reveal_strlit("aomapTexture");
    reveal_strlit("bumpTexture");
    reveal_strlit("backfaceCull");
    reveal_strlit("transparent");
    reveal_strlit("shadeless");
    reveal_strlit("alphaToCoverage");
    assert("diffuseColor"@[0] != "translucency"@[0]);
    assert("diffuseColor"@[0] != "aomapTexture"@[0]);
    assert("diffuseColor"@[0] != "backfaceCull"@[0]);
    assert("specularColor"@[0] != "emissiveColor"@[0]);
    assert("shininess"@[0] != "roughness"@[0]);
    assert("shininess"@[2] != "shadeless"@[2]);
    assert("roughness"@[0] != "shadeless"@[0]);
    assert("translucency"@[0] != "aomapTexture"@[0]);
    assert("translucency"@[0] != "backfaceCull"@[0]);
    assert("aomapTexture"@[0] != "backfaceCull"@[0]);
    assert("bumpTexture"@[0] != "transparent"@[0]);
    let t = trim(line);
    let p = words(t);
    if value_line(line, key) is Some {
        assert(p[0] == key);
        assert(!is_comment(t));
        assert(p.len() >= 2);
        assert(flag_field(mhmat_step(m, line), key) == Some(parse_bool_spec(p[1])));
    } else {
        if key == "backfaceCull"@ {
            assert(flag_field(mhmat_step(m, line), key) == flag_field(m, key));
        } else if key == "transparent"@ {
            assert(flag_field(mhmat_step(m, line), key) == flag_field(m, key));
        } else if key == "shadeless"@ {
            assert(flag_field(mhmat_step(m, line), key) == flag_field(m, key));
        } else {
            assert(flag_field(mhmat_step(m, line), key) == flag_field(m, key));
        }
    }
}

/// Each scalar and flag key names its own field.
proof fn lemma_fields_by_key(m: MhmatView)
    ensures
        scalar_field(m, "opacity"@) == m.opacity,
        scalar_field(m, "shininess"@) == m.shininess,
        scalar_field(m, "metallic"@) == m.metallic,
        scalar_field(m, "roughness"@) == m.roughness,
        scalar_field(m, "ior"@) == m.ior,
        scalar_field(m, "translucency"@) == m.translucency,
        scalar_field(m, "normalmapIntensity"@) == m.normalmap_intensity,
        flag_field(m, "backfaceCull"@) == m.backface_cull,
        flag_field(m, "transparent"@) == m.transparent,
        flag_field(m, "shadeless"@) == m.shadeless,
        flag_field(m, "alphaToCoverage"@) == m.alpha_to_coverage,
{
    reveal_strlit("opacity");
    reveal_strlit("shininess");
    reveal_strlit("metallic");
    reveal_strlit("roughness");
    reveal_strlit("ior");
    reveal_strlit("translucency");
    reveal_strlit("normalmapIntensity");
    reveal_strlit("backfaceCull");
    reveal_strlit("transparent");
    reveal_strlit("shadeless");
    reveal_strlit("alphaToCoverage");
    assert("shininess"@[0] != "roughness"@[0]);
    assert("shininess"@[2] != "shadeless"@[2]);
    assert("roughness"@[0] != "shadeless"@[0]);
    assert("translucency"@[0] != "backfaceCull"@[0]);
    assert("opacity"@.len() == 7);
    assert("shininess"@.len() == 9);
    assert("metallic"@.len() == 8);
    assert("roughness"@.len() == 9);
    assert("ior"@.len() == 3);
    assert("translucency"@.len() == 12);
    assert("normalmapIntensity"@.len() == 18);
    assert("backfaceCull"@.len() == 12);
    assert("transparent"@.len() == 11);
    assert("shadeless"@.len() == 9);
    assert("alphaToCoverage"@.len() == 15);
}

/// The three words after `key` on a line whose first word is `key` (the
/// line trimmed, not a comment, and of at least four words).
pub open spec fn color_line(line: Seq<char>, key: Seq<char>) -> Option<Seq<Seq<char>>> {
    let t = trim(line);
    let p = words(t);
    if !is_comment(t) && p.len() >= 4 && p[0] == key {
        Some(p.subrange(1, 4))
    } else {
        None
    }
}

/// The keys of the colors.
pub open spec fn is_color_key(key: Seq<char>) -> bool {
    key == "diffuseColor"@ || key == "specularColor"@ || key == "emissiveColor"@
}

/// The color of a material that `key` names.
pub open spec fn color_field(m: MhmatView, key: Seq<char>) -> Option<Seq<Seq<char>>> {
    if key == "diffuseColor"@ {
        m.diffuse_color
    } else if key == "specularColor"@ {
        m.specular_color
    } else {
        m.emissive_color
    }
}

/// The color that the last line of `ls` with first word `key` gives.
pub open spec fn last_color(ls: Seq<Seq<char>>, key: Seq<char>) -> Option<Seq<Seq<char>>>
    decreases ls.len(),
{
    if ls.len() == 0 {
        None
    } else if color_line(ls.last(), key) is Some {
        color_line(ls.last(), key)
    } else {
        last_color(ls.drop_last(), key)
    }
}

/// The texture slot that a texture key names.
pub open spec fn texture_slot(key: Seq<char>) -> Option<TextureSlot> {
    if key == "diffuseTexture"@ {
        Some(TextureSlot::Diffuse)
    } else if key == "normalmapTexture"@ {
        Some(TextureSlot::Normalmap)
    } else if key == "aomapTexture"@ {
        Some(TextureSlot::Aomap)
    } else if key == "bumpTexture"@ {
        Some(TextureSlot::Bump)
    } else {
        None
    }
}

/// The texture that a line names: its first word is a texture key and its
/// second word the file (the line trimmed and not a comment).
pub open spec fn texture_line(line: Seq<char>) -> Option<(TextureSlot, Seq<char>)> {
    let t = trim(line);
    let p = words(t);
    if !is_comment(t) && p.len() >= 2 && texture_slot(p[0]) is Some {
        Some((texture_slot(p[0])->0, p[1]))
    } else {
        None
    }
}

/// The textures that the lines of `ls` name, in order.
pub open spec fn texture_lines(ls: Seq<Seq<char>>) -> Seq<(TextureSlot, Seq<char>)>
    decreases ls.len(),
{
    if ls.len() == 0 {
        seq![]
    } else {
        match texture_line(ls.last()) {
            Some(e) => texture_lines(ls.drop_last()).push(e),
            None => texture_lines(ls.drop_last()),
        }
    }
}

/// A line changes the color named by `key` only when its first word is
/// `key` and three more words follow; it then sets the color to them. A
/// line adds a texture exactly when it names one, at the end, and changes
/// no texture already there.
#[verifier::rlimit(60)]
pub proof fn lemma_mhmat_color_texture_step(m: MhmatView, line: Seq<char>, key: Seq<char>)
    requires
        is_color_key(key),
    ensures
        color_field(mhmat_step(m, line), key) == match color_line(line, key) {
            Some(c) => Some(c),
            None => color_field(m, key),
        },
        mhmat_step(m, line).textures == match texture_line(line) {
            Some(e) => m.textures.push(e),
            None => m.textures,
        },
{
    reveal_strlit("diffuseColor");
    reveal_strlit("specularColor");
    reveal_strlit("emissiveColor");
    reveal_strlit("opacity");
    reveal_strlit("shininess");
    reveal_strlit("metallic");
    reveal_strlit("roughness");
    reveal_strlit("ior");
    reveal_strlit("translucency");
    reveal_strlit("normalmapIntensity");
    reveal_strlit("diffuseTexture");
    reveal_strlit("normalmapTexture");
    reveal_strlit("aomapTexture");
    reveal_strlit("bumpTexture");
    reveal_strlit("backfaceCull");
    reveal_strlit("transparent");
    reveal_strlit("shadeless");
    reveal_strlit("alphaToCoverage");
    assert("diffuseColor"@.len() == 12);
    assert("specularColor"@.len() == 13);
    assert("emissiveColor"@.len() == 13);
    assert("opacity"@.len() == 7);
    assert("shininess"@.len() == 9);
    assert("metallic"@.len() == 8);
    assert("roughness"@.len() == 9);
    assert("ior"@.len() == 3);
    assert("translucency"@.len() == 12);
    assert("normalmapIntensity"@.len() == 18);
    assert("diffuseTexture"@.len() == 14);
    assert("normalmapTexture"@.len() == 16);
    assert("aomapTexture"@.len() == 12);
    assert("bumpTexture"@.len() == 11);
    assert("backfaceCull"@.len() == 12);
    assert("transparent"@.len() == 11);
    assert("shadeless"@.len() == 9);
    assert("alphaToCoverage"@.len() == 15);
    assert("diffuseColor"@[0] != "translucency"@[0]);
    assert("diffuseColor"@[0] != "aomapTexture"@[0]);
    assert("diffuseColor"@[0] != "backfaceCull"@[0]);
    assert("specularColor"@[0] != "emissiveColor"@[0]);
    assert("shininess"@[0] != "roughness"@[0]);
    assert("shininess"@[2] != "shadeless"@[2]);
    assert("roughness"@[0] != "shadeless"@[0]);
    assert("translucency"@[0] != "aomapTexture"@[0]);
    assert("translucency"@[0] != "backfaceCull"@[0]);
    assert("aomapTexture"@[0] != "backfaceCull"@[0]);
    assert("bumpTexture"@[0] != "transparent"@[0]);
}

/// Each color of a parsed material is given by the last line that names
/// it, and the textures are those that the lines name, in file order.
pub proof fn lemma_mhmat_colors_textures(ls: Seq<Seq<char>>)
    ensures
        mhmat_spec(ls).diffuse_color == last_color(ls, "diffuseColor"@),
        mhmat_spec(ls).specular_color == last_color(ls, "specularColor"@),
        mhmat_spec(ls).emissive_color == last_color(ls, "emissiveColor"@),
        mhmat_spec(ls).textures == texture_lines(ls),
    decreases ls.len(),
{
    reveal_strlit("diffuseColor");
    reveal_strlit("specularColor");
    reveal_strlit("emissiveColor");
    assert("diffuseColor"@.len() == 12);
    assert("specularColor"@.len() == 13);
    assert("emissiveColor"@.len() == 13);
    assert("specularColor"@[0] != "emissiveColor"@[0]);
    if ls.len() > 0 {
        let prev = ls.drop_last();
        lemma_mhmat_colors_textures(prev);
        lemma_mhmat_color_texture_step(mhmat_spec(prev), ls.last(), "diffuseColor"@);
        lemma_mhmat_color_texture_step(mhmat_spec(prev), ls.last(), "specularColor"@);
        lemma_mhmat_color_texture_step(mhmat_spec(prev), ls.last(), "emissiveColor"@);
    }
}

/// What the last line of `ls` with first word `key` sets a flag to, if any.
pub open spec fn last_flag(ls: Seq<Seq<char>>, key: Seq<char>) -> Option<bool> {
    match last_value(ls, key) {
        Some(v) => Some(parse_bool_spec(v)),
        None => None,
    }
}

/// Each scalar of a parsed material is the second word of the last line
/// that names it, and each flag is what the last such line says; a value
/// that no line names is absent. Later lines win.
pub proof fn lemma_mhmat_values(ls: Seq<Seq<char>>)
    ensures
        mhmat_spec(ls).opacity == last_value(ls, "opacity"@),
        mhmat_spec(ls).shininess == last_value(ls, "shininess"@),
        mhmat_spec(ls).metallic == last_value(ls, "metallic"@),
        mhmat_spec(ls).roughness == last_value(ls, "roughness"@),
        mhmat_spec(ls).ior == last_value(ls, "ior"@),
        mhmat_spec(ls).translucency == last_value(ls, "translucency"@),
        mhmat_spec(ls).normalmap_intensity == last_value(ls, "normalmapIntensity"@),
        mhmat_spec(ls).backface_cull == last_flag(ls, "backfaceCull"@),
        mhmat_spec(ls).transparent == last_flag(ls, "transparent"@),
        mhmat_spec(ls).shadeless == last_flag(ls, "shadeless"@),
        mhmat_spec(ls).alpha_to_coverage == last_flag(ls, "alphaToCoverage"@),
    decreases ls.len(),
{
    if ls.len() > 0 {
        let prev = ls.drop_last();
        lemma_mhmat_values(prev);
        lemma_fields_by_key(mhmat_spec(prev));
        lemma_fields_by_key(mhmat_spec(ls));
        lemma_mhmat_scalar_step(mhmat_spec(prev), ls.last(), "opacity"@);
        lemma_mhmat_scalar_step(mhmat_spec(prev), ls.last(), "shininess"@);
        lemma_mhmat_scalar_step(mhmat_spec(prev), ls.last(), "metallic"@);
        lemma_mhmat_scalar_step(mhmat_spec(prev), ls.last(), "roughness"@);
        lemma_mhmat_scalar_step(mhmat_spec(prev), ls.last(), "ior"@);
        lemma_mhmat_scalar_step(mhmat_spec(prev), ls.last(), "translucency"@);
        lemma_mhmat_scalar_step(mhmat_spec(prev), ls.last(), "normalmapIntensity"@);
        lemma_mhmat_flag_step(mhmat_spec(prev), ls.last(), "backfaceCull"@);
        lemma_mhmat_flag_step(mhmat_spec(prev), ls.last(), "transparent"@);
        lemma_mhmat_flag_step(mhmat_spec(prev), ls.last(), "shadeless"@);
        lemma_mhmat_flag_step(mhmat_spec(prev), ls.last(), "alphaToCoverage"@);
    }
}

fn color_at(p: &Vec<Vec<char>>) -> (r: [String; 3])
    requires
        p@.len() >= 4,
    ensures
        string_views(r@) == views(p@).subrange(1, 4),
{
    let r = [chars_to_string(&p[1]), chars_to_string(&p[2]), chars_to_string(&p[3])];
    assert(string_views(r@) =~= views(p@).subrange(1, 4));
    r
}

fn push_texture(m: &mut MhmatFile, slot: TextureSlot, name: &[char])
    ensures
        final(m)@ == (MhmatView { textures: old(m)@.textures.push((slot, name@)), ..old(m)@ }),
{
    let s = chars_to_string(name);
    m.textures.push((slot, s));
    proof {
        assert(texture_views(m.textures@) =~= texture_views(old(m).textures@).push((slot, name@)));
    }
}

fn mhmat_read_line(m: &mut MhmatFile, line: &[char])
    ensures
        final(m)@ == mhmat_step(old(m)@, line@),
{
    let t = trim_chars(line);
    let p = split_whitespace(&t);
    if t.len() == 0 || t[0] == '#' || starts_with(&t, "//") || p.len() == 0 {
        return;
    }
    let k = &p[0];
    if eq_str(k, "diffuseColor") && p.len() >= 4 {
        m.diffuse_color = Some(color_at(&p));
    } else if eq_str(k, "specularColor") && p.len() >= 4 {
        m.specular_color = Some(color_at(&p));
    } else if eq_str(k, "emissiveColor") && p.len() >= 4 {
        m.emissive_color = Some(color_at(&p));
    } else if p.len() < 2 {
    } else if eq_str(k, "opacity") {
        m.opacity = Some(chars_to_string(&p[1]));
    } else if eq_str(k, "shininess") {
        m.shininess = Some(chars_to_string(&p[1]));
    } else if eq_str(k, "metallic") {
        m.metallic = Some(chars_to_string(&p[1]));
    } else if eq_str(k, "roughness") {
        m.roughness = Some(chars_to_string(&p[1]));
    } else if eq_str(k, "ior") {
        m.ior = Some(chars_to_string(&p[1]));
    } else if eq_str(k, "translucency") {
        m.translucency = Some(chars_to_string(&p[1]));
    } else if eq_str(k, "normalmapIntensity") {
        m.normalmap_intensity = Some(chars_to_string(&p[1]));
    } else if eq_str(k, "diffuseTexture") {
        push_texture(m, TextureSlot::Diffuse, &p[1]);
    } else if eq_str(k, "normalmapTexture") {
        push_texture(m, TextureSlot::Normalmap, &p[1]);
    } else if eq_str(k, "aomapTexture") {
        push_texture(m, TextureSlot::Aomap, &p[1]);
    } else if eq_str(k, "bumpTexture") {
        push_texture(m, TextureSlot::Bump, &p[1]);
    } else if eq_str(k, "backfaceCull") {
        m.backface_cull = Some(parse_bool(&p[1]));
    } else if eq_str(k, "transparent") {
        m.transparent = Some(parse_bool(&p[1]));
    } else if eq_str(k, "shadeless") {
        m.shadeless = Some(parse_bool(&p[1]));
    } else if eq_str(k, "alphaToCoverage") {
        m.alpha_to_coverage = Some(parse_bool(&p[1]));
    }
}

/// Parses a `.mhmat` file. Fails when a line is not valid UTF-8.
pub fn parse_mhmat(bytes: &[u8]) -> (r: Result<MhmatFile, TextError>)
    ensures
        match r {
            Ok(m) => {
                &&& forall|k: int| 0 <= k < lines(bytes@).len() ==> valid_utf8(#[trigger] lines(bytes@)[k])
                &&& m@ == mhmat_spec(decoded(lines(bytes@)))
                &&& m@.opacity == last_value(decoded(lines(bytes@)), "opacity"@)
                &&& m@.shininess == last_value(decoded(lines(bytes@)), "shininess"@)
                &&& m@.diffuse_color == last_color(decoded(lines(bytes@)), "diffuseColor"@)
                &&& m@.textures == texture_lines(decoded(lines(bytes@)))
                &&& m@.metallic == last_value(decoded(lines(bytes@)), "metallic"@)
                &&& m@.roughness == last_value(decoded(lines(bytes@)), "roughness"@)
                &&& m@.ior == last_value(decoded(lines(bytes@)), "ior"@)
                &&& m@.translucency == last_value(decoded(lines(bytes@)), "translucency"@)
                &&& m@.normalmap_intensity == last_value(decoded(lines(bytes@)), "normalmapIntensity"@)
                &&& m@.backface_cull == last_flag(decoded(lines(bytes@)), "backfaceCull"@)
                &&& m@.transparent == last_flag(decoded(lines(bytes@)), "transparent"@)
                &&& m@.shadeless == last_flag(decoded(lines(bytes@)), "shadeless"@)
                &&& m@.alpha_to_coverage == last_flag(decoded(lines(bytes@)), "alphaToCoverage"@)
            },
            Err(TextError::InvalidUtf8 { line }) => {
                &&& 1 <= line <= lines(bytes@).len()
                &&& !valid_utf8(lines(bytes@)[line - 1])
                &&& forall|k: int| 0 <= k < line - 1 ==> valid_utf8(#[trigger] lines(bytes@)[k])
            },
        },
{
    let n_bytes: usize = bytes.len();
    let (ls, complete) = decode_lines(bytes);
    if !complete {
        assert(ls.len() < n_bytes);
        return Err(TextError::InvalidUtf8 { line: ls.len() + 1 });
    }
    let mut m = MhmatFile {
        diffuse_color: None,
        specular_color: None,
        emissive_color: None,
        opacity: None,
        shininess: None,
        metallic: None,
        roughness: None,
        ior: None,
        translucency: None,
        normalmap_intensity: None,
        textures: Vec::new(),
        backface_cull: None,
        transparent: None,
        shadeless: None,
        alpha_to_coverage: None,
    };
    let ghost all = views(ls@);
    proof {
        assert(texture_views(m.textures@) =~= seq![]);
        assert(all == decoded(lines(bytes@)));
    }
    let mut i: usize = 0;
    while i < ls.len()
        invariant
            i <= ls.len(),
            all == views(ls@),
            m@ == mhmat_spec(all.take(i as int)),
        decreases ls.len() - i,
    {
        proof {
            assert(all.take(i + 1).drop_last() =~= all.take(i as int));
            assert(all[i as int] == ls@[i as int]@);
        }
        mhmat_read_line(&mut m, &ls[i]);
        i = i + 1;
    }
    proof {
        assert(all.take(i as int) =~= all);
        lemma_mhmat_values(all);
        lemma_mhmat_colors_textures(all);
    }
    Ok(m)
}

} // verus!
