//! `.mhclo` files: how a clothing, hair or body-part mesh is bound to the
//! base mesh.
//!
//! The format is line based. Blank lines and lines starting with `#` are
//! skipped. Before the line `verts 0` a line is `key value` metadata
//! (`name`, `obj_file`, `material`, `z_depth`, `x_scale`, `y_scale`,
//! `z_scale`), or a numbered binding `idx v0 v1 v2 w0 w1 w2 x y z`. From
//! `verts 0` on, each line is a binding: `v0 v1 v2 w0 w1 w2 x y z`
//! (triangle, barycentric weights, offset) or a single base-mesh vertex
//! index. Numbers with a fractional part are kept as their text.
use vstd::prelude::*;
use crate::text::{
    chars_to_string, decode_lines, decoded, eq_str, lines, parse_u32, parse_u32_or_zero,
    parse_uint_spec, space_index, split_once_space, split_once_space_chars, split_whitespace, string_views,
    trim, trim_chars, u32_or_zero, views, words, TextError,
};
use vstd::utf8::valid_utf8;

verus! {

/// A scale reference: two base-mesh vertices and the distance between them
/// in the undeformed base mesh (as text).
#[derive(Clone, Debug, PartialEq, Eq)]
pub struct ScaleRef {
    pub min_vert: u32,
    pub max_vert: u32,
    pub scale: String,
}

/// The plain-value form of a [`ScaleRef`].
pub struct ScaleRefView {
    pub min_vert: u32,
    pub max_vert: u32,
    pub scale: Seq<char>,
}

impl View for ScaleRef {
    type V = ScaleRefView;

    open spec fn view(&self) -> ScaleRefView {
        ScaleRefView { min_vert: self.min_vert, max_vert: self.max_vert, scale: self.scale@ }
    }
}

/// One binding line of an asset file.
#[derive(Clone, Debug, PartialEq, Eq)]
pub enum BindingLine {
    /// `v0 v1 v2 w0 w1 w2 x y z` in the `verts` section.
    Triangle { triangle: [u32; 3], weights: [String; 3], offset: [String; 3] },
    /// `idx v0 v1 v2 w0 w1 w2 x y z` before the `verts` section.
    Numbered { triangle: [u32; 3], weights: [String; 3], offset: [String; 3] },
    /// A single base-mesh vertex index.
    Vertex(u32),
}

/// The plain-value form of a [`BindingLine`].
pub enum BindingView {
    Triangle { triangle: Seq<u32>, weights: Seq<Seq<char>>, offset: Seq<Seq<char>> },
    Numbered { triangle: Seq<u32>, weights: Seq<Seq<char>>, offset: Seq<Seq<char>> },
    Vertex(u32),
}

impl View for BindingLine {
    type V = BindingView;

    open spec fn view(&self) -> BindingView {
        match self {
            BindingLine::Triangle { triangle, weights, offset } => BindingView::Triangle {
                triangle: triangle@,
                weights: string_views(weights@),
                offset: string_views(offset@),
            },
            BindingLine::Numbered { triangle, weights, offset } => BindingView::Numbered {
                triangle: triangle@,
                weights: string_views(weights@),
                offset: string_views(offset@),
            },
            BindingLine::Vertex(v) => BindingView::Vertex(*v),
        }
    }
}

/// The views of a vector of bindings.
pub open spec fn binding_views(v: Seq<BindingLine>) -> Seq<BindingView> {
    v.map_values(|b: BindingLine| b@)
}

/// A parsed `.mhclo` file.
#[derive(Clone, Debug, PartialEq, Eq)]
pub struct MhcloAsset {
    /// Binding lines, in file order.
    pub bindings: Vec<BindingLine>,
    /// The single-index bindings' vertex indices, in file order.
    pub vertex_mapping: Vec<u32>,
    pub x_scale: Option<ScaleRef>,
    pub y_scale: Option<ScaleRef>,
    pub z_scale: Option<ScaleRef>,
    /// Associated `.obj` mesh path.
    pub obj_file: Option<String>,
    /// Material file path.
    pub material: Option<String>,
    pub name: String,
    pub z_depth: u32,
}

/// The plain-value form of an [`MhcloAsset`].
pub struct MhcloView {
    pub bindings: Seq<BindingView>,
    pub vertex_mapping: Seq<u32>,
    pub x_scale: Option<ScaleRefView>,
    pub y_scale: Option<ScaleRefView>,
    pub z_scale: Option<ScaleRefView>,
    pub obj_file: Option<Seq<char>>,
    pub material: Option<Seq<char>>,
    pub name: Seq<char>,
    pub z_depth: u32,
}

pub open spec fn opt_scale_view(s: Option<ScaleRef>) -> Option<ScaleRefView> {
    match s {
        Some(r) => Some(r@),
        None => None,
    }
}

pub open spec fn opt_string_view(s: Option<String>) -> Option<Seq<char>> {
    match s {
        Some(r) => Some(r@),
        None => None,
    }
}

impl View for MhcloAsset {
    type V = MhcloView;

    open spec fn view(&self) -> MhcloView {
        MhcloView {
            bindings: binding_views(self.bindings@),
            vertex_mapping: self.vertex_mapping@,
            x_scale: opt_scale_view(self.x_scale),
            y_scale: opt_scale_view(self.y_scale),
            z_scale: opt_scale_view(self.z_scale),
            obj_file: opt_string_view(self.obj_file),
            material: opt_string_view(self.material),
            name: self.name@,
            z_depth: self.z_depth,
        }
    }
}

/// The asset before any line is read.
pub open spec fn empty_mhclo() -> MhcloView {
    MhcloView {
        bindings: seq![],
        vertex_mapping: seq![],
        x_scale: None,
        y_scale: None,
        z_scale: None,
        obj_file: None,
        material: None,
        name: seq![],
        z_depth: 0,
    }
}

/// A scale reference from the text after its key: three words, the first
/// two vertex indices (0 when not a `u32`).
pub open spec fn scale_ref_spec(value: Seq<char>) -> Option<ScaleRefView> {
    let p = words(value);
    if p.len() == 3 {
        Some(ScaleRefView { min_vert: u32_or_zero(p[0]), max_vert: u32_or_zero(p[1]), scale: p[2] })
    } else {
        None
    }
}

/// The binding fields read from nine words starting at `p[o]`.
pub open spec fn triangle_of(p: Seq<Seq<char>>, o: int) -> Seq<u32> {
    seq![u32_or_zero(p[o]), u32_or_zero(p[o + 1]), u32_or_zero(p[o + 2])]
}

/// Reading state: whether the `verts` section has begun, and the asset so far.
pub struct MhcloState {
    pub in_verts: bool,
    pub asset: MhcloView,
}

/// What one line does to the reading state.
pub open spec fn mhclo_step(st: MhcloState, line: Seq<char>) -> MhcloState {
    let t = trim(line);
    let a = st.asset;
    if t.len() == 0 || t[0] == '#' {
        st
    } else if t == "verts 0"@ {
        MhcloState { in_verts: true, asset: a }
    } else if st.in_verts {
        let p = words(t);
        if p.len() == 9 {
            let b = BindingView::Triangle {
                triangle: triangle_of(p, 0),
                weights: p.subrange(3, 6),
                offset: p.subrange(6, 9),
            };
            MhcloState { in_verts: true, asset: MhcloView { bindings: a.bindings.push(b), ..a } }
        } else if p.len() == 1 {
            match parse_uint_spec(p[0], u32::MAX as nat) {
                Ok(v) => MhcloState {
                    in_verts: true,
                    asset: MhcloView {
                        bindings: a.bindings.push(BindingView::Vertex(v as u32)),
                        vertex_mapping: a.vertex_mapping.push(v as u32),
                        ..a
                    },
                },
                Err(_) => st,
            }
        } else {
            st
        }
    } else {
        match split_once_space(t) {
            None => st,
            Some((key, value)) => {
                if key == "name"@ {
                    MhcloState { in_verts: false, asset: MhcloView { name: value, ..a } }
                } else if key == "obj_file"@ {
                    MhcloState { in_verts: false, asset: MhcloView { obj_file: Some(value), ..a } }
                } else if key == "material"@ {
                    MhcloState { in_verts: false, asset: MhcloView { material: Some(value), ..a } }
                } else if key == "z_depth"@ {
                    MhcloState {
                        in_verts: false,
                        asset: MhcloView { z_depth: u32_or_zero(value), ..a },
                    }
                } else if key == "x_scale"@ {
                    match scale_ref_spec(value) {
                        Some(r) => MhcloState {
                            in_verts: false,
                            asset: MhcloView { x_scale: Some(r), ..a },
                        },
                        None => st,
                    }
                } else if key == "y_scale"@ {
                    match scale_ref_spec(value) {
                        Some(r) => MhcloState {
                            in_verts: false,
                            asset: MhcloView { y_scale: Some(r), ..a },
                        },
                        None => st,
                    }
                } else if key == "z_scale"@ {
                    match scale_ref_spec(value) {
                        Some(r) => MhcloState {
                            in_verts: false,
                            asset: MhcloView { z_scale: Some(r), ..a },
                        },
                        None => st,
                    }
                } else if parse_uint_spec(key, u32::MAX as nat) is Ok {
                    let p = words(t);
                    if p.len() == 10 {
                        let b = BindingView::Numbered {
                            triangle: triangle_of(p, 1),
                            weights: p.subrange(4, 7),
                            offset: p.subrange(7, 10),
                        };
                        MhcloState {
                            in_verts: false,
                            asset: MhcloView { bindings: a.bindings.push(b), ..a },
                        }
                    } else {
                        st
                    }
                } else {
                    st
                }
            },
        }
    }
}

/// The reading state after the given lines.
pub open spec fn mhclo_fold(ls: Seq<Seq<char>>) -> MhcloState
    decreases ls.len(),
{
    if ls.len() == 0 {
        MhcloState { in_verts: false, asset: empty_mhclo() }
    } else {
        mhclo_step(mhclo_fold(ls.drop_last()), ls.last())
    }
}

/// The asset that a file's (decoded) lines describe.
pub open spec fn mhclo_spec(ls: Seq<Seq<char>>) -> MhcloView {
    mhclo_fold(ls).asset
}

/// The indices of the single-index bindings, in order.
pub open spec fn vertex_bindings(bs: Seq<BindingView>) -> Seq<u32>
    decreases bs.len(),
{
    if bs.len() == 0 {
        seq![]
    } else {
        match bs.last() {
            BindingView::Vertex(v) => vertex_bindings(bs.drop_last()).push(v),
            _ => vertex_bindings(bs.drop_last()),
        }
    }
}

/// The vertex mapping of a parsed file lists exactly the single-index
/// bindings, in file order.
pub proof fn lemma_mhclo_vertex_mapping(ls: Seq<Seq<char>>)
    ensures
        mhclo_spec(ls).vertex_mapping == vertex_bindings(mhclo_spec(ls).bindings),
    decreases ls.len(),
{
    if ls.len() > 0 {
        lemma_mhclo_vertex_mapping(ls.drop_last());
        let a = mhclo_spec(ls.drop_last());
        let b = mhclo_spec(ls);
        if b.bindings.len() > a.bindings.len() {
            assert(b.bindings.drop_last() == a.bindings);
        }
    }
}

/// The scale reference that a line gives under `key`: the trimmed line is
/// `key`, a space, and three words.
pub open spec fn scale_line(line: Seq<char>, key: Seq<char>) -> Option<ScaleRefView> {
    match split_once_space(trim(line)) {
        Some((k, v)) => if k == key {
            scale_ref_spec(v)
        } else {
            None
        },
        None => None,
    }
}

/// The keys of the three scale references.
pub open spec fn is_scale_key(key: Seq<char>) -> bool {
    key == "x_scale"@ || key == "y_scale"@ || key == "z_scale"@
}

/// The scale reference of an asset that `key` names.
pub open spec fn mhclo_scale(a: MhcloView, key: Seq<char>) -> Option<ScaleRefView> {
    if key == "x_scale"@ {
        a.x_scale
    } else if key == "y_scale"@ {
        a.y_scale
    } else {
        a.z_scale
    }
}

/// Whether some line of `ls` is, trimmed, `verts 0`.
pub open spec fn verts_seen(ls: Seq<Seq<char>>) -> bool {
    exists|j: int| 0 <= j < ls.len() && trim(#[trigger] ls[j]) == "verts 0"@
}

/// The scale reference of the last line of `ls` that gives one under `key`
/// and comes before any `verts 0` line.
pub open spec fn last_scale_before_verts(ls: Seq<Seq<char>>, key: Seq<char>) -> Option<ScaleRefView>
    decreases ls.len(),
{
    if ls.len() == 0 {
        None
    } else if !verts_seen(ls.drop_last()) && scale_line(ls.last(), key) is Some {
        scale_line(ls.last(), key)
    } else {
        last_scale_before_verts(ls.drop_last(), key)
    }
}

/// A line that gives a scale reference under a scale key starts with that
/// key's first letter, and is none of the other keys.
proof fn lemma_scale_line_shape(line: Seq<char>, key: Seq<char>)
    requires
        is_scale_key(key),
        scale_line(line, key) is Some,
    ensures
        ({
            let t = trim(line);
            &&& t.len() > 7
            &&& t[0] == key[0]
            &&& split_once_space(t) == Some((key, t.skip(8)))
        }),
{
    reveal_strlit("x_scale");
    reveal_strlit("y_scale");
    reveal_strlit("z_scale");
    let t = trim(line);
    let i = space_index(t, 0);
    assert(t.take(i) == key);
    assert(i == 7);
    assert(t.take(7)[0] == t[0]);
}

/// A line changes the scale reference named by `key` only when it comes
/// before the `verts` section and gives a scale reference under that very
/// key; it then sets it to that reference. The `verts` section begins at a
/// `verts 0` line and never ends.
pub proof fn lemma_mhclo_scale_step(st: MhcloState, line: Seq<char>, key: Seq<char>)
    requires
        is_scale_key(key),
    ensures
        mhclo_scale(mhclo_step(st, line).asset, key) == if !st.in_verts && scale_line(line, key) is Some {
            scale_line(line, key)
        } else {
            mhclo_scale(st.asset, key)
        },
        mhclo_step(st, line).in_verts == (st.in_verts || trim(line) == "verts 0"@),
{
    reveal_strlit("x_scale");
    reveal_strlit("y_scale");
    reveal_strlit("z_scale");
    reveal_strlit("z_depth");
    reveal_strlit("name");
    reveal_strlit("obj_file");
    reveal_strlit("material");
    reveal_strlit("verts 0");
    let t = trim(line);
    if scale_line(line, key) is Some {
        lemma_scale_line_shape(line, key);
        assert(t != "verts 0"@) by {
            assert("verts 0"@[0] == 'v');
        }
        if !st.in_verts {
            assert(key != "z_depth"@) by {
                assert("z_depth"@[2] != "z_scale"@[2]);
            }
        }
    } else {
        match split_once_space(t) {
            Some((k, v)) => {
                if k == "x_scale"@ || k == "y_scale"@ || k == "z_scale"@ {
                    if k == key {
                        assert(scale_ref_spec(v) is None);
                    }
                }
                assert("x_scale"@ != "y_scale"@ && "x_scale"@ != "z_scale"@ && "y_scale"@
                    != "z_scale"@) by {
                    assert("x_scale"@[0] != "y_scale"@[0]);
                    assert("x_scale"@[0] != "z_scale"@[0]);
                    assert("y_scale"@[0] != "z_scale"@[0]);
                }
            },
            None => {},
        }
    }
}

/// Whether reading has entered the `verts` section is whether a `verts 0`
/// line has been read; each scale reference is the one given by the last
/// line for its key before that section (none when there is no such line).
pub proof fn lemma_mhclo_scales(ls: Seq<Seq<char>>)
    ensures
        mhclo_fold(ls).in_verts == verts_seen(ls),
        mhclo_spec(ls).x_scale == last_scale_before_verts(ls, "x_scale"@),
        mhclo_spec(ls).y_scale == last_scale_before_verts(ls, "y_scale"@),
        mhclo_spec(ls).z_scale == last_scale_before_verts(ls, "z_scale"@),
    decreases ls.len(),
{
    reveal_strlit("x_scale");
    reveal_strlit("y_scale");
    reveal_strlit("z_scale");
    if ls.len() > 0 {
        let prev = ls.drop_last();
        lemma_mhclo_scales(prev);
        let st = mhclo_fold(prev);
        lemma_mhclo_scale_step(st, ls.last(), "x_scale"@);
        lemma_mhclo_scale_step(st, ls.last(), "y_scale"@);
        lemma_mhclo_scale_step(st, ls.last(), "z_scale"@);
        assert(verts_seen(ls) == (verts_seen(prev) || trim(ls.last()) == "verts 0"@)) by {
            if verts_seen(prev) {
                let j = choose|j: int| 0 <= j < prev.len() && trim(#[trigger] prev[j]) == "verts 0"@;
                assert(ls[j] == prev[j]);
            }
            if trim(ls.last()) == "verts 0"@ {
                assert(ls[ls.len() - 1] == ls.last());
            }
            if verts_seen(ls) {
                let j = choose|j: int| 0 <= j < ls.len() && trim(#[trigger] ls[j]) == "verts 0"@;
                if j < ls.len() - 1 {
                    assert(prev[j] == ls[j]);
                }
            }
        }
        assert("x_scale"@ != "y_scale"@ && "x_scale"@ != "z_scale"@ && "y_scale"@ != "z_scale"@) by {
            assert("x_scale"@[0] != "y_scale"@[0]);
            assert("x_scale"@[0] != "z_scale"@[0]);
            assert("y_scale"@[0] != "z_scale"@[0]);
        }
    }
}

/// The text after `key` and a space on a line whose trimmed text starts so.
pub open spec fn text_line(line: Seq<char>, key: Seq<char>) -> Option<Seq<char>> {
    match split_once_space(trim(line)) {
        Some((k, v)) => if k == key {
            Some(v)
        } else {
            None
        },
        None => None,
    }
}

/// The keys of the text fields.
pub open spec fn is_text_key(key: Seq<char>) -> bool {
    key == "name"@ || key == "obj_file"@ || key == "material"@
}

/// The text field of an asset that `key` names (the name is always there).
pub open spec fn mhclo_text(a: MhcloView, key: Seq<char>) -> Option<Seq<char>> {
    if key == "name"@ {
        Some(a.name)
    } else if key == "obj_file"@ {
        a.obj_file
    } else {
        a.material
    }
}

/// The text after `key` on the last line of `ls` that starts with `key`
/// and a space and comes before any `verts 0` line.
pub open spec fn last_text_before_verts(ls: Seq<Seq<char>>, key: Seq<char>) -> Option<Seq<char>>
    decreases ls.len(),
{
    if ls.len() == 0 {
        None
    } else if !verts_seen(ls.drop_last()) && text_line(ls.last(), key) is Some {
        text_line(ls.last(), key)
    } else {
        last_text_before_verts(ls.drop_last(), key)
    }
}

/// The keys of the metadata lines differ from one another and from `verts 0`,
/// and none starts with `#`.
proof fn lemma_mhclo_keys()
    ensures
        "name"@ != "obj_file"@,
        "name"@ != "material"@,
        "obj_file"@ != "material"@,
        "z_depth"@ != "x_scale"@,
        "z_depth"@ != "y_scale"@,
        "z_depth"@ != "z_scale"@,
        "x_scale"@ != "y_scale"@,
        "x_scale"@ != "z_scale"@,
        "y_scale"@ != "z_scale"@,
        "name"@.len() == 4,
        "obj_file"@.len() == 8,
        "material"@.len() == 8,
        "z_depth"@.len() == 7,
        "x_scale"@.len() == 7,
        "y_scale"@.len() == 7,
        "z_scale"@.len() == 7,
        "name"@[0] == 'n',
        "obj_file"@[0] == 'o',
        "material"@[0] == 'm',
        "z_depth"@[0] == 'z',
        "verts 0"@[0] == 'v',
{
    reveal_strlit("name");
    reveal_strlit("obj_file");
    reveal_strlit("material");
    reveal_strlit("z_depth");
    reveal_strlit("x_scale");
    reveal_strlit("y_scale");
    reveal_strlit("z_scale");
    reveal_strlit("verts 0");
    assert("obj_file"@[0] != "material"@[0]);
    assert("z_depth"@[0] != "x_scale"@[0]);
    assert("z_depth"@[0] != "y_scale"@[0]);
    assert("z_depth"@[2] != "z_scale"@[2]);
    assert("x_scale"@[0] != "y_scale"@[0]);
    assert("x_scale"@[0] != "z_scale"@[0]);
    assert("y_scale"@[0] != "z_scale"@[0]);
}

/// A line that starts with a key and a space starts with the key's first
/// letter.
proof fn lemma_text_line_shape(line: Seq<char>, key: Seq<char>)
    requires
        key.len() > 0,
        text_line(line, key) is Some,
    ensures
        trim(line).len() > key.len(),
        trim(line)[0] == key[0],
{
    let t = trim(line);
    let i = space_index(t, 0);
    assert(t.take(i) == key);
    assert(t.take(i)[0] == t[0]);
}

/// A line changes the text field named by `key` only when it comes before
/// the `verts` section and starts with that key and a space; it then sets
/// the field to the rest of the line. Likewise `z_depth` changes only on a
/// `z_depth` line before that section, to its number (0 if not one).
pub proof fn lemma_mhclo_text_step(st: MhcloState, line: Seq<char>, key: Seq<char>)
    requires
        is_text_key(key),
    ensures
        mhclo_text(mhclo_step(st, line).asset, key) == if !st.in_verts && text_line(line, key) is Some {
            text_line(line, key)
        } else {
            mhclo_text(st.asset, key)
        },
        mhclo_step(st, line).asset.z_depth == match text_line(line, "z_depth"@) {
            Some(v) => if !st.in_verts {
                u32_or_zero(v)
            } else {
                st.asset.z_depth
            },
            None => st.asset.z_depth,
        },
{
    lemma_mhclo_keys();
    let t = trim(line);
    if text_line(line, key) is Some {
        lemma_text_line_shape(line, key);
        assert(t != "verts 0"@);
    }
    if text_line(line, "z_depth"@) is Some {
        lemma_text_line_shape(line, "z_depth"@);
        assert(t != "verts 0"@);
    }
}

/// The name, `.obj` file and material of a parsed asset are the texts of
/// the last `name`, `obj_file` and `material` lines before the `verts`
/// section (an empty name and no file or material when there is none);
/// `z_depth` is the number on the last `z_depth` line there (0 if none).
pub proof fn lemma_mhclo_texts(ls: Seq<Seq<char>>)
    ensures
        mhclo_spec(ls).name == match last_text_before_verts(ls, "name"@) {
            Some(v) => v,
            None => seq![],
        },
        mhclo_spec(ls).obj_file == last_text_before_verts(ls, "obj_file"@),
        mhclo_spec(ls).material == last_text_before_verts(ls, "material"@),
        mhclo_spec(ls).z_depth == match last_text_before_verts(ls, "z_depth"@) {
            Some(v) => u32_or_zero(v),
            None => 0,
        },
    decreases ls.len(),
{
    lemma_mhclo_keys();
    if ls.len() > 0 {
        let prev = ls.drop_last();
        lemma_mhclo_texts(prev);
        lemma_mhclo_scales(prev);
        let st = mhclo_fold(prev);
        lemma_mhclo_text_step(st, ls.last(), "name"@);
        lemma_mhclo_text_step(st, ls.last(), "obj_file"@);
        lemma_mhclo_text_step(st, ls.last(), "material"@);
    }
}

/// A line adds at most one binding, at the end, and keeps the bindings
/// read before. In the `verts` section a line of nine words `v0 v1 v2 w0 w1
/// w2 x y z` adds a triangle binding on vertices `v0 v1 v2` (0 where not a
/// number) with weights `w0 w1 w2` and offset `x y z`, and a line of one
/// number adds a single-vertex binding on it, which the vertex mapping also
/// gets.
pub proof fn lemma_mhclo_binding_step(st: MhcloState, line: Seq<char>)
    ensures
        ({
            let t = trim(line);
            let p = words(t);
            let b0 = st.asset.bindings;
            let b = mhclo_step(st, line).asset.bindings;
            let m0 = st.asset.vertex_mapping;
            let m = mhclo_step(st, line).asset.vertex_mapping;
            let code = !(t.len() == 0 || t[0] == '#') && t != "verts 0"@;
            &&& b0.len() <= b.len() <= b0.len() + 1
            &&& b.take(b0.len() as int) == b0
            &&& code && st.in_verts && p.len() == 9 ==> b == b0.push(
                BindingView::Triangle {
                    triangle: seq![u32_or_zero(p[0]), u32_or_zero(p[1]), u32_or_zero(p[2])],
                    weights: seq![p[3], p[4], p[5]],
                    offset: seq![p[6], p[7], p[8]],
                },
            )
            &&& code && st.in_verts && p.len() == 1 && parse_uint_spec(p[0], u32::MAX as nat) is Ok
                ==> {
                let v = parse_uint_spec(p[0], u32::MAX as nat)->Ok_0 as u32;
                &&& b == b0.push(BindingView::Vertex(v))
                &&& m == m0.push(v)
            }
            &&& !(code && st.in_verts && p.len() == 1) ==> m == m0
        }),
{
    let t = trim(line);
    let p = words(t);
    if p.len() == 9 {
        assert(p.subrange(3, 6) =~= seq![p[3], p[4], p[5]]);
        assert(p.subrange(6, 9) =~= seq![p[6], p[7], p[8]]);
    }
    let b0 = st.asset.bindings;
    let b = mhclo_step(st, line).asset.bindings;
    if b.len() == b0.len() + 1 {
        assert(b.take(b0.len() as int) =~= b0);
    } else {
        assert(b.take(b0.len() as int) =~= b0);
    }
}

/// Reads a scale reference from the text after its key.
pub fn parse_scale_ref(value: &[char]) -> (r: Option<ScaleRef>)
    ensures
        opt_scale_view(r) == scale_ref_spec(value@),
{
    let p = split_whitespace(value);
    if p.len() == 3 {
        let r = ScaleRef {
            min_vert: parse_u32_or_zero(&p[0]),
            max_vert: parse_u32_or_zero(&p[1]),
            scale: chars_to_string(&p[2]),
        };
        Some(r)
    } else {
        None
    }
}

/// Three vertex indices read from words `o`, `o + 1`, `o + 2` (0 where not a `u32`).
pub fn triangle_at(p: &Vec<Vec<char>>, o: usize) -> (r: [u32; 3])
    requires
        o <= 7,
        o + 3 <= p@.len(),
    ensures
        r@ == triangle_of(views(p@), o as int),
{
    let r = [parse_u32_or_zero(&p[o]), parse_u32_or_zero(&p[o + 1]), parse_u32_or_zero(&p[o + 2])];
    assert(r@ =~= triangle_of(views(p@), o as int));
    r
}

/// Three words `o`, `o + 1`, `o + 2` as strings.
pub fn three_strings(p: &Vec<Vec<char>>, o: usize) -> (r: [String; 3])
    requires
        o <= 7,
        o + 3 <= p@.len(),
    ensures
        string_views(r@) == views(p@).subrange(o as int, o + 3),
{
    let r = [chars_to_string(&p[o]), chars_to_string(&p[o + 1]), chars_to_string(&p[o + 2])];
    assert(string_views(r@) =~= views(p@).subrange(o as int, o + 3));
    r
}

struct MhcloReader {
    in_verts: bool,
    asset: MhcloAsset,
}

fn mhclo_read_line(st: &mut MhcloReader, line: &[char])
    ensures
        ({
            let s = mhclo_step(MhcloState { in_verts: old(st).in_verts, asset: old(st).asset@ }, line@);
            s.in_verts == final(st).in_verts && s.asset == final(st).asset@
        }),
{
    let t = trim_chars(line);
    if t.len() == 0 || t[0] == '#' {
        return;
    }
    if eq_str(&t, "verts 0") {
        st.in_verts = true;
        return;
    }
    if st.in_verts {
        let p = split_whitespace(&t);
        if p.len() == 9 {
            let b = BindingLine::Triangle {
                triangle: triangle_at(&p, 0),
                weights: three_strings(&p, 3),
                offset: three_strings(&p, 6),
            };
            st.asset.bindings.push(b);
            proof {
                assert(binding_views(st.asset.bindings@) =~= binding_views(
                    old(st).asset.bindings@,
                ).push(b@));
            }
        } else if p.len() == 1 {
            match parse_u32(&p[0]) {
                Ok(v) => {
                    st.asset.bindings.push(BindingLine::Vertex(v));
                    st.asset.vertex_mapping.push(v);
                    proof {
                        assert(binding_views(st.asset.bindings@) =~= binding_views(
                            old(st).asset.bindings@,
                        ).push(BindingView::Vertex(v)));
                    }
                },
                Err(_) => {},
            }
        }
        return;
    }
    match split_once_space_chars(&t) {
        None => {},
        Some((key, value)) => {
            if eq_str(&key, "name") {
                st.asset.name = chars_to_string(&value);
            } else if eq_str(&key, "obj_file") {
                st.asset.obj_file = Some(chars_to_string(&value));
            } else if eq_str(&key, "material") {
                st.asset.material = Some(chars_to_string(&value));
            } else if eq_str(&key, "z_depth") {
                st.asset.z_depth = parse_u32_or_zero(&value);
            } else if eq_str(&key, "x_scale") {
                match parse_scale_ref(&value) {
                    Some(r) => {
                        st.asset.x_scale = Some(r);
                    },
                    None => {},
                }
            } else if eq_str(&key, "y_scale") {
                match parse_scale_ref(&value) {
                    Some(r) => {
                        st.asset.y_scale = Some(r);
                    },
                    None => {},
                }
            } else if eq_str(&key, "z_scale") {
                match parse_scale_ref(&value) {
                    Some(r) => {
                        st.asset.z_scale = Some(r);
                    },
                    None => {},
                }
            } else if parse_u32(&key).is_ok() {
                let p = split_whitespace(&t);
                if p.len() == 10 {
                    let b = BindingLine::Numbered {
                        triangle: triangle_at(&p, 1),
                        weights: three_strings(&p, 4),
                        offset: three_strings(&p, 7),
                    };
                    st.asset.bindings.push(b);
                    proof {
                        assert(binding_views(st.asset.bindings@) =~= binding_views(
                            old(st).asset.bindings@,
                        ).push(b@));
                    }
                }
            }
        },
    }
}

/// Parses a `.mhclo` file. Fails when a line is not valid UTF-8.
pub fn parse_mhclo(bytes: &[u8]) -> (r: Result<MhcloAsset, TextError>)
    ensures
        match r {
            Ok(a) => {
                &&& forall|k: int| 0 <= k < lines(bytes@).len() ==> valid_utf8(#[trigger] lines(bytes@)[k])
                &&& a@ == mhclo_spec(decoded(lines(bytes@)))
                &&& a@.x_scale == last_scale_before_verts(decoded(lines(bytes@)), "x_scale"@)
                &&& a@.y_scale == last_scale_before_verts(decoded(lines(bytes@)), "y_scale"@)
                &&& a@.z_scale == last_scale_before_verts(decoded(lines(bytes@)), "z_scale"@)
                &&& a@.obj_file == last_text_before_verts(decoded(lines(bytes@)), "obj_file"@)
                &&& a@.material == last_text_before_verts(decoded(lines(bytes@)), "material"@)
            },
            Err(TextError::InvalidUtf8 { line }) => {
                &&& 1 <= line <= lines(bytes@).len()
                &&& !valid_utf8(lines(bytes@)[line - 1])
                &&& forall|k: int| 0 <= k < line - 1 ==> valid_utf8(#[trigger] lines(bytes@)[k])
            },
        },
{
    let n_bytes: usize = bytes.len();
    let (ls, complete) = decode_lines(bytes);
    if !complete {
        assert(ls.len() < n_bytes);
        return Err(TextError::InvalidUtf8 { line: ls.len() + 1 });
    }
    let mut st = MhcloReader {
        in_verts: false,
        asset: MhcloAsset {
            bindings: Vec::new(),
            vertex_mapping: Vec::new(),
            x_scale: None,
            y_scale: None,
            z_scale: None,
            obj_file: None,
            material: None,
            name: String::new(),
            z_depth: 0,
        },
    };
    let ghost all = views(ls@);
    proof {
        assert(binding_views(st.asset.bindings@) =~= seq![]);
        assert(all == decoded(lines(bytes@)));
    }
    let mut i: usize = 0;
    while i < ls.len()
        invariant
            i <= ls.len(),
            all == views(ls@),
            ({
                let s = mhclo_fold(all.take(i as int));
                s.in_verts == st.in_verts && s.asset == st.asset@
            }),
        decreases ls.len() - i,
    {
        proof {
            assert(all.take(i + 1).drop_last() =~= all.take(i as int));
            assert(all[i as int] == ls@[i as int]@);
        }
        mhclo_read_line(&mut st, &ls[i]);
        i = i + 1;
    }
    proof {
        assert(all.take(i as int) =~= all);
        lemma_mhclo_scales(all);
        lemma_mhclo_texts(all);
    }
    Ok(st.asset)
}

impl MhcloAsset {
    /// Whether the file has single-index bindings (eyes, teeth) besides or
    /// instead of triangle bindings (clothing).
    pub fn has_vertex_mapping(&self) -> (r: bool)
        ensures
            r == (self.vertex_mapping@.len() > 0),
    {
        self.vertex_mapping.len() > 0
    }

    /// The base-mesh value at each mapped vertex index, or `zero` where the
    /// index is past the end of `base_vertices`.
    pub fn apply_vertex_mapping<T: Copy>(&self, base_vertices: &[T], zero: T) -> (r: Vec<T>)
        ensures
            r@.len() == self.vertex_mapping@.len(),
            forall|k: int|
                0 <= k < r@.len() ==> #[trigger] r@[k] == if (self.vertex_mapping@[k] as int)
                    < base_vertices@.len() {
                    base_vertices@[self.vertex_mapping@[k] as int]
                } else {
                    zero
                },
    {
        let mut out: Vec<T> = Vec::new();
        let mut i: usize = 0;
        while i < self.vertex_mapping.len()
            invariant
                i <= self.vertex_mapping@.len(),
                out@.len() == i,
                forall|k: int|
                    0 <= k < i ==> #[trigger] out@[k] == if (self.vertex_mapping@[k] as int)
                        < base_vertices@.len() {
                        base_vertices@[self.vertex_mapping@[k] as int]
                    } else {
                        zero
                    },
            decreases self.vertex_mapping@.len() - i,
        {
            let idx = self.vertex_mapping[i] as usize;
            if idx < base_vertices.len() {
                out.push(base_vertices[idx]);
            } else {
                out.push(zero);
            }
            i = i + 1;
        }
        out
    }
}

} // verus!
