//! `.proxy` files: how a proxy body mesh is bound to the base mesh.
//!
//! Same line format as `.mhclo`: blank lines and `#` comments are skipped,
//! `key value` lines carry metadata (`basemesh`, `name`, `obj_file`,
//! `x_scale`, `y_scale`, `z_scale`), and from `verts 0` on a line of nine
//! words is a triangle binding and a line of one word a direct vertex
//! reference. Other lines in the `verts` section are read as metadata.
use vstd::prelude::*;
use crate::loaders::mhclo::{
    binding_views, is_scale_key, text_line, verts_seen, opt_scale_view, opt_string_view, parse_scale_ref, scale_line,
    scale_ref_spec, three_strings, triangle_at, triangle_of, BindingLine, BindingView, ScaleRef, ScaleRefView,
};
use crate::text::{
    chars_to_string, decode_lines, decoded, eq_str, is_ws, lemma_words_concat, lemma_space_index_found, lemma_words_single,
    lines, parse_u32_or_zero, space_index, split_once_space,
    split_once_space_chars, split_whitespace, trim, trim_chars, u32_or_zero, views, words,
    TextError,
};
use vstd::utf8::valid_utf8;

verus! {

/// A parsed `.proxy` file.
#[derive(Clone, Debug, PartialEq, Eq)]
pub struct ProxyAsset {
    /// Base mesh identifier (e.g. `hm08`).
    pub basemesh: String,
    pub name: String,
    pub obj_file: Option<String>,
    /// Binding of each proxy vertex, in file order.
    pub bindings: Vec<BindingLine>,
    pub x_scale: Option<ScaleRef>,
    pub y_scale: Option<ScaleRef>,
    pub z_scale: Option<ScaleRef>,
}

/// The plain-value form of a [`ProxyAsset`].
pub struct ProxyView {
    pub basemesh: Seq<char>,
    pub name: Seq<char>,
    pub obj_file: Option<Seq<char>>,
    pub bindings: Seq<BindingView>,
    pub x_scale: Option<ScaleRefView>,
    pub y_scale: Option<ScaleRefView>,
    pub z_scale: Option<ScaleRefView>,
}

impl View for ProxyAsset {
    type V = ProxyView;

    open spec fn view(&self) -> ProxyView {
        ProxyView {
            basemesh: self.basemesh@,
            name: self.name@,
            obj_file: opt_string_view(self.obj_file),
            bindings: binding_views(self.bindings@),
            x_scale: opt_scale_view(self.x_scale),
            y_scale: opt_scale_view(self.y_scale),
            z_scale: opt_scale_view(self.z_scale),
        }
    }
}

/// The asset before any line is read.
pub open spec fn empty_proxy() -> ProxyView {
    ProxyView {
        basemesh: seq![],
        name: seq![],
        obj_file: None,
        bindings: seq![],
        x_scale: None,
        y_scale: None,
        z_scale: None,
    }
}

/// Reading state: whether the `verts` section has begun, and the asset so far.
pub struct ProxyState {
    pub in_verts: bool,
    pub asset: ProxyView,
}

/// What a `key value` line does to the asset.
pub open spec fn proxy_metadata(a: ProxyView, t: Seq<char>) -> ProxyView {
    match split_once_space(t) {
        None => a,
        Some((key, value)) => {
            if key == "basemesh"@ {
                ProxyView { basemesh: value, ..a }
            } else if key == "name"@ {
                ProxyView { name: value, ..a }
            } else if key == "obj_file"@ {
                ProxyView { obj_file: Some(value), ..a }
            } else if key == "x_scale"@ && scale_ref_spec(value) is Some {
                ProxyView { x_scale: scale_ref_spec(value), ..a }
            } else if key == "y_scale"@ && scale_ref_spec(value) is Some {
                ProxyView { y_scale: scale_ref_spec(value), ..a }
            } else if key == "z_scale"@ && scale_ref_spec(value) is Some {
                ProxyView { z_scale: scale_ref_spec(value), ..a }
            } else {
                a
            }
        },
    }
}

/// What one line does to the reading state.
pub open spec fn proxy_step(st: ProxyState, line: Seq<char>) -> ProxyState {
    let t = trim(line);
    let a = st.asset;
    let p = words(t);
    if t.len() == 0 || t[0] == '#' {
        st
    } else if t == "verts 0"@ {
        ProxyState { in_verts: true, asset: a }
    } else if st.in_verts && p.len() == 9 {
        let b = BindingView::Triangle {
            triangle: triangle_of(p, 0),
            weights: p.subrange(3, 6),
            offset: p.subrange(6, 9),
        };
        ProxyState { in_verts: true, asset: ProxyView { bindings: a.bindings.push(b), ..a } }
    } else if st.in_verts && p.len() == 1 {
        let b = BindingView::Vertex(u32_or_zero(p[0]));
        ProxyState { in_verts: true, asset: ProxyView { bindings: a.bindings.push(b), ..a } }
    } else {
        ProxyState { in_verts: st.in_verts, asset: proxy_metadata(a, t) }
    }
}

/// The reading state after the given lines.
pub open spec fn proxy_fold(ls: Seq<Seq<char>>) -> ProxyState
    decreases ls.len(),
{
    if ls.len() == 0 {
        ProxyState { in_verts: false, asset: empty_proxy() }
    } else {
        proxy_step(proxy_fold(ls.drop_last()), ls.last())
    }
}

/// The asset that a file's (decoded) lines describe.
pub open spec fn proxy_spec(ls: Seq<Seq<char>>) -> ProxyView {
    proxy_fold(ls).asset
}

/// The scale reference of a proxy that `key` names.
pub open spec fn proxy_scale(a: ProxyView, key: Seq<char>) -> Option<ScaleRefView> {
    if key == "x_scale"@ {
        a.x_scale
    } else if key == "y_scale"@ {
        a.y_scale
    } else {
        a.z_scale
    }
}

/// The scale reference of the last line of `ls` that gives one under `key`
/// (a proxy file reads scale lines in its `verts` section too).
pub open spec fn last_scale(ls: Seq<Seq<char>>, key: Seq<char>) -> Option<ScaleRefView>
    decreases ls.len(),
{
    if ls.len() == 0 {
        None
    } else if scale_line(ls.last(), key) is Some {
        scale_line(ls.last(), key)
    } else {
        last_scale(ls.drop_last(), key)
    }
}

/// A line that gives a scale reference is the key, a space and three
/// words: four words in all, starting with the key's first letter.
proof fn lemma_proxy_scale_line(line: Seq<char>, key: Seq<char>)
    requires
        is_scale_key(key),
        scale_line(line, key) is Some,
    ensures
        ({
            let t = trim(line);
            &&& t.len() > 7
            &&& t[0] == key[0]
            &&& split_once_space(t) == Some((key, t.skip(8)))
            &&& words(t).len() == 4
        }),
{
    reveal_strlit("x_scale");
    reveal_strlit("y_scale");
    reveal_strlit("z_scale");
    let t = trim(line);
    let i = space_index(t, 0);
    assert(t.take(i) == key);
    assert(i == 7);
    assert(t.take(7)[0] == t[0]);
    lemma_space_index_found(t, 0);
    let v = t.skip(8);
    assert(t =~= key + seq![' '] + v);
    lemma_words_concat(key, v);
    assert forall|k: int| 0 <= k < key.len() implies !is_ws(#[trigger] key[k]) by {
        assert(key[k] == "x_scale"@[k] || key[k] == "y_scale"@[k] || key[k] == "z_scale"@[k]);
    }
    lemma_words_single(key);
}

/// A line changes the scale reference named by `key` only when it gives a
/// scale reference under that very key, and then sets it to that reference.
pub proof fn lemma_proxy_scale_step(st: ProxyState, line: Seq<char>, key: Seq<char>)
    requires
        is_scale_key(key),
    ensures
        proxy_scale(proxy_step(st, line).asset, key) == match scale_line(line, key) {
            Some(r) => Some(r),
            None => proxy_scale(st.asset, key),
        },
{
    reveal_strlit("x_scale");
    reveal_strlit("y_scale");
    reveal_strlit("z_scale");
    reveal_strlit("basemesh");
    reveal_strlit("name");
    reveal_strlit("obj_file");
    reveal_strlit("verts 0");
    let t = trim(line);
    assert("x_scale"@ != "y_scale"@ && "x_scale"@ != "z_scale"@ && "y_scale"@ != "z_scale"@) by {
        assert("x_scale"@[0] != "y_scale"@[0]);
        assert("x_scale"@[0] != "z_scale"@[0]);
        assert("y_scale"@[0] != "z_scale"@[0]);
    }
    if scale_line(line, key) is Some {
        lemma_proxy_scale_line(line, key);
        assert(t != "verts 0"@) by {
            assert("verts 0"@[0] == 'v');
        }
    } else {
        match split_once_space(t) {
            Some((k, v)) => {
                if k == key {
                    assert(scale_ref_spec(v) is None);
                }
            },
            None => {},
        }
    }
}

/// Each scale reference of a parsed proxy is the one given by the last
/// line for its key (none when there is no such line).
pub proof fn lemma_proxy_scales(ls: Seq<Seq<char>>)
    ensures
        proxy_spec(ls).x_scale == last_scale(ls, "x_scale"@),
        proxy_spec(ls).y_scale == last_scale(ls, "y_scale"@),
        proxy_spec(ls).z_scale == last_scale(ls, "z_scale"@),
    decreases ls.len(),
{
    reveal_strlit("x_scale");
    reveal_strlit("y_scale");
    reveal_strlit("z_scale");
    assert("x_scale"@ != "y_scale"@ && "x_scale"@ != "z_scale"@ && "y_scale"@ != "z_scale"@) by {
        assert("x_scale"@[0] != "y_scale"@[0]);
        assert("x_scale"@[0] != "z_scale"@[0]);
        assert("y_scale"@[0] != "z_scale"@[0]);
    }
    if ls.len() > 0 {
        let prev = ls.drop_last();
        lemma_proxy_scales(prev);
        let st = proxy_fold(prev);
        lemma_proxy_scale_step(st, ls.last(), "x_scale"@);
        lemma_proxy_scale_step(st, ls.last(), "y_scale"@);
        lemma_proxy_scale_step(st, ls.last(), "z_scale"@);
    }
}

/// The text that a line gives under `key` when read with the `verts`
/// section begun or not: the trimmed line starts with `key` and a space,
/// and is not a binding (in the `verts` section a line of one or nine words
/// is a binding).
pub open spec fn proxy_text_line(in_verts: bool, line: Seq<char>, key: Seq<char>) -> Option<Seq<char>> {
    let n = words(trim(line)).len();
    if in_verts && (n == 1 || n == 9) {
        None
    } else {
        text_line(line, key)
    }
}

/// The keys of the text fields of a proxy.
pub open spec fn is_proxy_text_key(key: Seq<char>) -> bool {
    key == "basemesh"@ || key == "name"@ || key == "obj_file"@
}

/// The text field of a proxy that `key` names.
pub open spec fn proxy_text(a: ProxyView, key: Seq<char>) -> Option<Seq<char>> {
    if key == "basemesh"@ {
        Some(a.basemesh)
    } else if key == "name"@ {
        Some(a.name)
    } else {
        a.obj_file
    }
}

/// The text that the last line of `ls` gives under `key`.
pub open spec fn last_proxy_text(ls: Seq<Seq<char>>, key: Seq<char>) -> Option<Seq<char>>
    decreases ls.len(),
{
    if ls.len() == 0 {
        None
    } else if proxy_text_line(verts_seen(ls.drop_last()), ls.last(), key) is Some {
        proxy_text_line(verts_seen(ls.drop_last()), ls.last(), key)
    } else {
        last_proxy_text(ls.drop_last(), key)
    }
}

/// A line changes the text field named by `key` only when it gives a text
/// under that very key, and then sets the field to it; the `verts` section
/// begins at a `verts 0` line and never ends.
pub proof fn lemma_proxy_text_step(st: ProxyState, line: Seq<char>, key: Seq<char>)
    requires
        is_proxy_text_key(key),
    ensures
        proxy_text(proxy_step(st, line).asset, key) == match proxy_text_line(st.in_verts, line, key) {
            Some(v) => Some(v),
            None => proxy_text(st.asset, key),
        },
        proxy_step(st, line).in_verts == (st.in_verts || trim(line) == "verts 0"@),
{
    reveal_strlit("basemesh");
    reveal_strlit("name");
    reveal_strlit("obj_file");
    reveal_strlit("verts 0");
    assert("basemesh"@[0] != "obj_file"@[0]);
    let t = trim(line);
    if proxy_text_line(st.in_verts, line, key) is Some {
        let i = space_index(t, 0);
        assert(t.take(i) == key);
        assert(t.take(i)[0] == t[0]);
        assert(t != "verts 0"@) by {
            assert("verts 0"@[0] == 'v');
        }
    }
}

/// Each text field of a parsed proxy is the text of the last line that
/// gives one under its key (an empty base mesh or name, and no `.obj`
/// file, when there is none).
pub proof fn lemma_proxy_texts(ls: Seq<Seq<char>>)
    ensures
        proxy_fold(ls).in_verts == verts_seen(ls),
        proxy_spec(ls).basemesh == match last_proxy_text(ls, "basemesh"@) {
            Some(v) => v,
            None => seq![],
        },
        proxy_spec(ls).name == match last_proxy_text(ls, "name"@) {
            Some(v) => v,
            None => seq![],
        },
        proxy_spec(ls).obj_file == last_proxy_text(ls, "obj_file"@),
    decreases ls.len(),
{
    reveal_strlit("basemesh");
    reveal_strlit("name");
    reveal_strlit("obj_file");
    assert("basemesh"@[0] != "obj_file"@[0]);
    if ls.len() > 0 {
        let prev = ls.drop_last();
        lemma_proxy_texts(prev);
        let st = proxy_fold(prev);
        lemma_proxy_text_step(st, ls.last(), "basemesh"@);
        lemma_proxy_text_step(st, ls.last(), "name"@);
        lemma_proxy_text_step(st, ls.last(), "obj_file"@);
        assert(verts_seen(ls) == (verts_seen(prev) || trim(ls.last()) == "verts 0"@)) by {
            if verts_seen(prev) {
                let j = choose|j: int| 0 <= j < prev.len() && trim(#[trigger] prev[j]) == "verts 0"@;
                assert(ls[j] == prev[j]);
            }
            if trim(ls.last()) == "verts 0"@ {
                assert(ls[ls.len() - 1] == ls.last());
            }
            if verts_seen(ls) {
                let j = choose|j: int| 0 <= j < ls.len() && trim(#[trigger] ls[j]) == "verts 0"@;
                if j < ls.len() - 1 {
                    assert(prev[j] == ls[j]);
                }
            }
        }
    }
}

/// A line adds a binding only in the `verts` section, and then exactly when
/// it has nine words `v0 v1 v2 w0 w1 w2 x y z` (a triangle binding on
/// vertices `v0 v1 v2`, 0 where not a number, with weights `w0 w1 w2` and
/// offset `x y z`) or one word (a binding on that vertex index, 0 if not a
/// number); the bindings read before stay as they are.
pub proof fn lemma_proxy_binding_step(st: ProxyState, line: Seq<char>)
    ensures
        ({
            let t = trim(line);
            let p = words(t);
            let b0 = st.asset.bindings;
            let b = proxy_step(st, line).asset.bindings;
            let code = !(t.len() == 0 || t[0] == '#') && t != "verts 0"@;
            &&& code && st.in_verts && p.len() == 9 ==> b == b0.push(
                BindingView::Triangle {
                    triangle: seq![u32_or_zero(p[0]), u32_or_zero(p[1]), u32_or_zero(p[2])],
                    weights: seq![p[3], p[4], p[5]],
                    offset: seq![p[6], p[7], p[8]],
                },
            )
            &&& code && st.in_verts && p.len() == 1 ==> b == b0.push(
                BindingView::Vertex(u32_or_zero(p[0])),
            )
            &&& !(code && st.in_verts && (p.len() == 9 || p.len() == 1)) ==> b == b0
        }),
{
    let p = words(trim(line));
    if p.len() == 9 {
        assert(p.subrange(3, 6) =~= seq![p[3], p[4], p[5]]);
        assert(p.subrange(6, 9) =~= seq![p[6], p[7], p[8]]);
    }
}

struct ProxyReader {
    in_verts: bool,
    asset: ProxyAsset,
}

fn proxy_read_metadata(asset: &mut ProxyAsset, t: &[char])
    ensures
        final(asset)@ == proxy_metadata(old(asset)@, t@),
{
    match split_once_space_chars(t) {
        None => {},
        Some((key, value)) => {
            if eq_str(&key, "basemesh") {
                asset.basemesh = chars_to_string(&value);
            } else if eq_str(&key, "name") {
                asset.name = chars_to_string(&value);
            } else if eq_str(&key, "obj_file") {
                asset.obj_file = Some(chars_to_string(&value));
            } else if eq_str(&key, "x_scale") {
                let r = parse_scale_ref(&value);
                if r.is_some() {
                    asset.x_scale = r;
                }
            } else if eq_str(&key, "y_scale") {
                let r = parse_scale_ref(&value);
                if r.is_some() {
                    asset.y_scale = r;
                }
            } else if eq_str(&key, "z_scale") {
                let r = parse_scale_ref(&value);
                if r.is_some() {
                    asset.z_scale = r;
                }
            }
        },
    }
}

fn proxy_read_line(st: &mut ProxyReader, line: &[char])
    ensures
        ({
            let s = proxy_step(ProxyState { in_verts: old(st).in_verts, asset: old(st).asset@ }, line@);
            s.in_verts == final(st).in_verts && s.asset == final(st).asset@
        }),
{
    let t = trim_chars(line);
    if t.len() == 0 || t[0] == '#' {
        return;
    }
    if eq_str(&t, "verts 0") {
        st.in_verts = true;
        return;
    }
    let p = split_whitespace(&t);
    if st.in_verts && p.len() == 9 {
        let b = BindingLine::Triangle {
            triangle: triangle_at(&p, 0),
            weights: three_strings(&p, 3),
            offset: three_strings(&p, 6),
        };
        st.asset.bindings.push(b);
        proof {
            assert(binding_views(st.asset.bindings@) =~= binding_views(old(st).asset.bindings@).push(
                b@,
            ));
        }
        return;
    }
    if st.in_verts && p.len() == 1 {
        let b = BindingLine::Vertex(parse_u32_or_zero(&p[0]));
        st.asset.bindings.push(b);
        proof {
            assert(binding_views(st.asset.bindings@) =~= binding_views(old(st).asset.bindings@).push(
                b@,
            ));
        }
        return;
    }
    proxy_read_metadata(&mut st.asset, &t);
}

/// Parses a `.proxy` file. Fails when a line is not valid UTF-8.
pub fn parse_proxy(bytes: &[u8]) -> (r: Result<ProxyAsset, TextError>)
    ensures
        match r {
            Ok(a) => {
                &&& forall|k: int| 0 <= k < lines(bytes@).len() ==> valid_utf8(#[trigger] lines(bytes@)[k])
                &&& a@ == proxy_spec(decoded(lines(bytes@)))
                &&& a@.x_scale == last_scale(decoded(lines(bytes@)), "x_scale"@)
                &&& a@.y_scale == last_scale(decoded(lines(bytes@)), "y_scale"@)
                &&& a@.z_scale == last_scale(decoded(lines(bytes@)), "z_scale"@)
                &&& a@.obj_file == last_proxy_text(decoded(lines(bytes@)), "obj_file"@)
            },
            Err(TextError::InvalidUtf8 { line }) => {
                &&& 1 <= line <= lines(bytes@).len()
                &&& !valid_utf8(lines(bytes@)[line - 1])
                &&& forall|k: int| 0 <= k < line - 1 ==> valid_utf8(#[trigger] lines(bytes@)[k])
            },
        },
{
    let n_bytes: usize = bytes.len();
    let (ls, complete) = decode_lines(bytes);
    if !complete {
        assert(ls.len() < n_bytes);
        return Err(TextError::InvalidUtf8 { line: ls.len() + 1 });
    }
    let mut st = ProxyReader {
        in_verts: false,
        asset: ProxyAsset {
            basemesh: String::new(),
            name: String::new(),
            obj_file: None,
            bindings: Vec::new(),
            x_scale: None,
            y_scale: None,
            z_scale: None,
        },
    };
    let ghost all = views(ls@);
    proof {
        assert(binding_views(st.asset.bindings@) =~= seq![]);
        assert(all == decoded(lines(bytes@)));
    }
    let mut i: usize = 0;
    while i < ls.len()
        invariant
            i <= ls.len(),
            all == views(ls@),
            ({
                let s = proxy_fold(all.take(i as int));
                s.in_verts == st.in_verts && s.asset == st.asset@
            }),
        decreases ls.len() - i,
    {
        proof {
            assert(all.take(i + 1).drop_last() =~= all.take(i as int));
            assert(all[i as int] == ls@[i as int]@);
        }
        proxy_read_line(&mut st, &ls[i]);
        i = i + 1;
    }
    proof {
        assert(all.take(i as int) =~= all);
        lemma_proxy_scales(all);
        lemma_proxy_texts(all);
    }
    Ok(st.asset)
}

impl ProxyAsset {
    /// The binding of proxy vertex `proxy_vertex_idx`, if there is one.
    pub fn get_base_binding(&self, proxy_vertex_idx: usize) -> (r: Option<&BindingLine>)
        ensures
            match r {
                Some(b) => proxy_vertex_idx < self.bindings@.len() && *b
                    == self.bindings@[proxy_vertex_idx as int],
                None => proxy_vertex_idx >= self.bindings@.len(),
            },
    {
        if proxy_vertex_idx < self.bindings.len() {
            Some(&self.bindings[proxy_vertex_idx])
        } else {
            None
        }
    }
}

} // verus!
