//! `.bvh` pose files.
//!
//! The `HIERARCHY` section declares joints (`ROOT name` / `JOINT name`)
//! and, for each, a `CHANNELS n c1 .. cn` line naming its channels
//! (`Xposition`, `Yrotation`, ...). The `MOTION` section holds frames; the
//! first line after `MOTION` that is not `Frames:` or `Frame Time:` is the
//! pose: one number per channel, in joint order. Reading stops at that
//! line, or at the first line that is not valid UTF-8. The numbers are
//! kept as their text.
use vstd::prelude::*;
use vstd::slice::{slice_subrange, slice_to_vec};
use crate::text::{
    chars_to_string, decode_lines, decoded, eq_str, has_prefix, lines, parse_usize,
    parse_uint_spec, split_whitespace, starts_with, string_views, trim, trim_chars, valid_count,
    views, words,
};

verus! {

/// A joint: its name and its channel names, in order.
#[derive(Clone, Debug, PartialEq, Eq)]
pub struct BvhJoint {
    pub name: String,
    pub channels: Vec<String>,
}

/// The plain-value form of a [`BvhJoint`].
pub struct BvhJointView {
    pub name: Seq<char>,
    pub channels: Seq<Seq<char>>,
}

impl View for BvhJoint {
    type V = BvhJointView;

    open spec fn view(&self) -> BvhJointView {
        BvhJointView { name: self.name@, channels: string_views(self.channels@) }
    }
}

pub open spec fn joint_views(v: Seq<BvhJoint>) -> Seq<BvhJointView> {
    v.map_values(|j: BvhJoint| j@)
}

/// A read pose file: the joints, and the words of the pose line (empty
/// when there is none).
#[derive(Clone, Debug, PartialEq, Eq)]
pub struct BvhPose {
    pub joints: Vec<BvhJoint>,
    pub frame: Vec<String>,
}

/// The plain-value form of a [`BvhPose`].
pub struct BvhPoseView {
    pub joints: Seq<BvhJointView>,
    pub frame: Seq<Seq<char>>,
}

impl View for BvhPose {
    type V = BvhPoseView;

    open spec fn view(&self) -> BvhPoseView {
        BvhPoseView { joints: joint_views(self.joints@), frame: string_views(self.frame@) }
    }
}

/// Reading state.
pub struct BvhState {
    pub in_hierarchy: bool,
    pub in_motion: bool,
    /// Whether the pose line has been read.
    pub done: bool,
    pub pose: BvhPoseView,
}

pub open spec fn bvh_start() -> BvhState {
    BvhState {
        in_hierarchy: false,
        in_motion: false,
        done: false,
        pose: BvhPoseView { joints: seq![], frame: seq![] },
    }
}

/// `s.parse::<usize>().unwrap_or(0)`.
pub open spec fn usize_or_zero(s: Seq<char>) -> nat {
    match parse_uint_spec(s, usize::MAX as nat) {
        Ok(v) => v,
        Err(_) => 0,
    }
}

/// Whether the line is a `CHANNELS` line that names more channels than it
/// lists while a joint is open: the channel list is then sliced past its
/// end, which panics.
pub open spec fn bvh_line_overruns(st: BvhState, line: Seq<char>) -> bool {
    let t = trim(line);
    let p = words(t);
    &&& !st.done
    &&& t != "HIERARCHY"@
    &&& t != "MOTION"@
    &&& st.in_hierarchy
    &&& !has_prefix(t, "ROOT "@)
    &&& !has_prefix(t, "JOINT "@)
    &&& !has_prefix(t, "OFFSET "@)
    &&& has_prefix(t, "CHANNELS "@)
    &&& p.len() >= 2
    &&& st.pose.joints.len() > 0
    &&& 2 + usize_or_zero(p[1]) > p.len()
}

/// What a line inside `HIERARCHY` does to the joints.
pub open spec fn bvh_hierarchy_line(js: Seq<BvhJointView>, t: Seq<char>) -> Seq<BvhJointView> {
    let p = words(t);
    if has_prefix(t, "ROOT "@) || has_prefix(t, "JOINT "@) {
        js.push(BvhJointView { name: if p.len() >= 2 { p[1] } else { seq![] }, channels: seq![] })
    } else if has_prefix(t, "OFFSET "@) {
        js
    } else if has_prefix(t, "CHANNELS "@) && p.len() >= 2 && js.len() > 0 {
        let n = usize_or_zero(p[1]);
        js.update(
            js.len() - 1,
            BvhJointView { name: js.last().name, channels: p.subrange(2, 2 + n as int) },
        )
    } else {
        js
    }
}

/// What one line does to the reading state.
pub open spec fn bvh_step(st: BvhState, line: Seq<char>) -> BvhState {
    let t = trim(line);
    if st.done {
        st
    } else if t == "HIERARCHY"@ {
        BvhState { in_hierarchy: true, ..st }
    } else if t == "MOTION"@ {
        BvhState { in_hierarchy: false, in_motion: true, ..st }
    } else {
        let js = if st.in_hierarchy {
            bvh_hierarchy_line(st.pose.joints, t)
        } else {
            st.pose.joints
        };
        let st1 = BvhState { pose: BvhPoseView { joints: js, ..st.pose }, ..st };
        if st.in_motion && !has_prefix(t, "Frames:"@) && !has_prefix(t, "Frame Time:"@) && t.len()
            > 0 && !has_prefix(t, "MOTION"@) {
            BvhState { done: true, pose: BvhPoseView { frame: words(t), ..st1.pose }, ..st1 }
        } else {
            st1
        }
    }
}

/// The reading state after the given lines.
pub open spec fn bvh_fold(ls: Seq<Seq<char>>) -> BvhState
    decreases ls.len(),
{
    if ls.len() == 0 {
        bvh_start()
    } else {
        bvh_step(bvh_fold(ls.drop_last()), ls.last())
    }
}

/// No line, up to where reading stops, overruns its channel list.
pub open spec fn bvh_fits(ls: Seq<Seq<char>>) -> bool
    decreases ls.len(),
{
    ls.len() == 0 || (bvh_fits(ls.drop_last()) && !bvh_line_overruns(
        bvh_fold(ls.drop_last()),
        ls.last(),
    ))
}

/// Whether `line`, read in state `st`, declares a joint: reading has not
/// stopped, it is inside `HIERARCHY`, and the trimmed line starts with
/// `ROOT ` or `JOINT `.
pub open spec fn declares_joint(st: BvhState, line: Seq<char>) -> bool {
    let t = trim(line);
    !st.done && st.in_hierarchy && (has_prefix(t, "ROOT "@) || has_prefix(t, "JOINT "@))
}

/// The name that a joint line gives: its second word, or nothing.
pub open spec fn joint_line_name(line: Seq<char>) -> Seq<char> {
    let p = words(trim(line));
    if p.len() >= 2 {
        p[1]
    } else {
        seq![]
    }
}

/// The names of joints, in order.
pub open spec fn joint_names(js: Seq<BvhJointView>) -> Seq<Seq<char>> {
    js.map_values(|j: BvhJointView| j.name)
}

/// The names that the joint-declaring lines of `ls` give, in order.
pub open spec fn declared_names(ls: Seq<Seq<char>>) -> Seq<Seq<char>>
    decreases ls.len(),
{
    if ls.len() == 0 {
        seq![]
    } else if declares_joint(bvh_fold(ls.drop_last()), ls.last()) {
        declared_names(ls.drop_last()).push(joint_line_name(ls.last()))
    } else {
        declared_names(ls.drop_last())
    }
}

/// A joint-declaring line adds one joint, with the line's name and no
/// channels, after the joints so far; any other line (`End Site`, `OFFSET`,
/// braces, `CHANNELS`, motion lines) adds none and renames none.
pub proof fn lemma_bvh_joint_step(st: BvhState, line: Seq<char>)
    ensures
        ({
            let js = st.pose.joints;
            let js2 = bvh_step(st, line).pose.joints;
            if declares_joint(st, line) {
                &&& js2.len() == js.len() + 1
                &&& js2.last().name == joint_line_name(line)
                &&& js2.last().channels.len() == 0
                &&& forall|i: int| 0 <= i < js.len() ==> #[trigger] js2[i] == js[i]
            } else {
                &&& js2.len() == js.len()
                &&& forall|i: int| 0 <= i < js.len() ==> #[trigger] js2[i].name == js[i].name
            }
        }),
{
    reveal_strlit("ROOT ");
    reveal_strlit("JOINT ");
    reveal_strlit("HIERARCHY");
    reveal_strlit("MOTION");
    let t = trim(line);
    if has_prefix(t, "ROOT "@) {
        assert(t.take(5)[0] == t[0]);
        assert(t != "HIERARCHY"@) by {
            assert("HIERARCHY"@[0] != "ROOT "@[0]);
        }
        assert(t != "MOTION"@) by {
            assert("MOTION"@[0] != "ROOT "@[0]);
        }
    }
    if has_prefix(t, "JOINT "@) {
        assert(t.take(6)[0] == t[0]);
        assert(t != "HIERARCHY"@) by {
            assert("HIERARCHY"@[0] != "JOINT "@[0]);
        }
        assert(t != "MOTION"@) by {
            assert("MOTION"@[0] != "JOINT "@[0]);
        }
    }
}

/// Whether `line`, read in state `st`, is a channel list: reading has not
/// stopped, it is inside `HIERARCHY`, a joint has been declared, and the
/// trimmed line starts with `CHANNELS ` and has a count word.
pub open spec fn lists_channels(st: BvhState, line: Seq<char>) -> bool {
    let t = trim(line);
    &&& !st.done
    &&& st.in_hierarchy
    &&& has_prefix(t, "CHANNELS "@)
    &&& words(t).len() >= 2
    &&& st.pose.joints.len() > 0
}

/// A channel list gives the last joint declared so far the channel names
/// that follow the count on its line, as many as the count says, and
/// changes nothing else about the joints; a line that neither declares a
/// joint nor lists channels leaves the joints as they are. Once the pose
/// line has been read, no line changes anything; the pose line is the
/// first line of the `MOTION` section that is not a `Frames:` or `Frame
/// Time:` line, and its words are the frame.
pub proof fn lemma_bvh_channels_frame_step(st: BvhState, line: Seq<char>)
    ensures
        ({
            let t = trim(line);
            let p = words(t);
            let js = st.pose.joints;
            let js2 = bvh_step(st, line).pose.joints;
            &&& lists_channels(st, line) ==> {
                &&& js2.len() == js.len()
                &&& js2.last().name == js.last().name
                &&& js2.last().channels == p.subrange(2, 2 + usize_or_zero(p[1]) as int)
                &&& forall|i: int| 0 <= i < js.len() - 1 ==> #[trigger] js2[i] == js[i]
            }
            &&& !lists_channels(st, line) && !declares_joint(st, line) ==> js2 == js
        }),
        st.done ==> bvh_step(st, line) == st,
        !st.done && bvh_step(st, line).done ==> st.in_motion && bvh_step(st, line).pose.frame == words(
            trim(line),
        ),
        !bvh_step(st, line).done ==> bvh_step(st, line).pose.frame == st.pose.frame,
{
    reveal_strlit("ROOT ");
    reveal_strlit("JOINT ");
    reveal_strlit("OFFSET ");
    reveal_strlit("CHANNELS ");
    reveal_strlit("HIERARCHY");
    reveal_strlit("MOTION");
    let t = trim(line);
    if has_prefix(t, "CHANNELS "@) {
        assert(t.take(9)[0] == t[0]);
        assert("CHANNELS "@[0] == 'C');
        assert(t != "HIERARCHY"@) by {
            assert("HIERARCHY"@[0] == 'H');
        }
        assert(t != "MOTION"@) by {
            assert("MOTION"@[0] == 'M');
        }
        assert(!has_prefix(t, "ROOT "@)) by {
            assert("ROOT "@[0] == 'R');
            if has_prefix(t, "ROOT "@) {
                assert(t.take(5)[0] == t[0]);
            }
        }
        assert(!has_prefix(t, "JOINT "@)) by {
            assert("JOINT "@[0] == 'J');
            if has_prefix(t, "JOINT "@) {
                assert(t.take(6)[0] == t[0]);
            }
        }
        assert(!has_prefix(t, "OFFSET "@)) by {
            assert("OFFSET "@[0] == 'O');
            if has_prefix(t, "OFFSET "@) {
                assert(t.take(7)[0] == t[0]);
            }
        }
    }
}

/// The joints of a read pose are exactly those that its joint-declaring
/// lines declare, in order and under their names: `End Site` blocks and
/// every other line add none.
pub proof fn lemma_bvh_joints(ls: Seq<Seq<char>>)
    ensures
        joint_names(bvh_fold(ls).pose.joints) == declared_names(ls),
    decreases ls.len(),
{
    if ls.len() > 0 {
        let prev = ls.drop_last();
        lemma_bvh_joints(prev);
        lemma_bvh_joint_step(bvh_fold(prev), ls.last());
        let js = bvh_fold(prev).pose.joints;
        let js2 = bvh_fold(ls).pose.joints;
        if declares_joint(bvh_fold(prev), ls.last()) {
            assert(joint_names(js2) =~= joint_names(js).push(joint_line_name(ls.last())));
        } else {
            assert(joint_names(js2) =~= joint_names(js));
        }
    }
}

/// The lines that are read: those before the first that is not valid UTF-8.
pub open spec fn bvh_lines(b: Seq<u8>) -> Seq<Seq<char>> {
    decoded(lines(b).take(valid_count(lines(b)) as int))
}

/// Whether reading the file never slices a channel list past its end.
pub open spec fn bvh_well_formed(b: Seq<u8>) -> bool {
    bvh_fits(bvh_lines(b))
}

struct BvhReader {
    in_hierarchy: bool,
    in_motion: bool,
    done: bool,
    pose: BvhPose,
    overrun: bool,
}

spec fn reader_state(r: BvhReader) -> BvhState {
    BvhState {
        in_hierarchy: r.in_hierarchy,
        in_motion: r.in_motion,
        done: r.done,
        pose: r.pose@,
    }
}

fn strings_of(p: &Vec<Vec<char>>, from: usize, to: usize) -> (r: Vec<String>)
    requires
        from <= to <= p@.len(),
    ensures
        string_views(r@) == views(p@).subrange(from as int, to as int),
{
    let mut out: Vec<String> = Vec::new();
    let mut k: usize = from;
    while k < to
        invariant
            from <= k <= to <= p@.len(),
            string_views(out@) == views(p@).subrange(from as int, k as int),
        decreases to - k,
    {
        let s = chars_to_string(&p[k]);
        proof {
            assert(views(p@)[k as int] == p@[k as int]@);
            assert(views(p@).subrange(from as int, k + 1) =~= views(p@).subrange(
                from as int,
                k as int,
            ).push(s@));
            assert(string_views(out@.push(s)) =~= string_views(out@).push(s@));
        }
        out.push(s);
        k = k + 1;
    }
    out
}

/// Reads one line; when the line overruns its channel list, sets `overrun`
/// and leaves the rest unchanged.
fn bvh_read_line(st: &mut BvhReader, line: &[char])
    requires
        !old(st).overrun,
    ensures
        final(st).overrun == bvh_line_overruns(reader_state(*old(st)), line@),
        !final(st).overrun ==> reader_state(*final(st)) == bvh_step(reader_state(*old(st)), line@),
{
    if st.done {
        return;
    }
    let t = trim_chars(line);
    if eq_str(&t, "HIERARCHY") {
        st.in_hierarchy = true;
        return;
    }
    if eq_str(&t, "MOTION") {
        st.in_hierarchy = false;
        st.in_motion = true;
        return;
    }
    let p = split_whitespace(&t);
    let ghost js0 = joint_views(st.pose.joints@);
    if st.in_hierarchy {
        if starts_with(&t, "ROOT ") || starts_with(&t, "JOINT ") {
            let name = if p.len() >= 2 {
                chars_to_string(&p[1])
            } else {
                String::new()
            };
            let j = BvhJoint { name, channels: Vec::new() };
            proof {
                assert(string_views(j.channels@) =~= seq![]);
                assert(joint_views(st.pose.joints@.push(j)) =~= js0.push(j@));
            }
            st.pose.joints.push(j);
        } else if starts_with(&t, "OFFSET ") {
        } else if starts_with(&t, "CHANNELS ") && p.len() >= 2 && st.pose.joints.len() > 0 {
            let n = match parse_usize(&p[1]) {
                Ok(v) => v,
                Err(_) => 0,
            };
            if n > p.len() - 2 {
                st.overrun = true;
                return;
            }
            let chans = strings_of(&p, 2, 2 + n);
            let last = st.pose.joints.len() - 1;
            let name = st.pose.joints[last].name.clone();
            let j = BvhJoint { name, channels: chans };
            proof {
                assert(joint_views(st.pose.joints@.update(last as int, j)) =~= js0.update(
                    last as int,
                    j@,
                ));
            }
            st.pose.joints.set(last, j);
        }
    }
    if st.in_motion && !starts_with(&t, "Frames:") && !starts_with(&t, "Frame Time:") && t.len()
        > 0 && !starts_with(&t, "MOTION") {
        let f = strings_of(&p, 0, p.len());
        proof {
            assert(views(p@).subrange(0, p@.len() as int) =~= views(p@));
        }
        st.pose.frame = f;
        st.done = true;
    }
}

/// Reads a `.bvh` pose file whose channel lists are all complete.
pub fn parse_bvh(bytes: &[u8]) -> (r: BvhPose)
    requires
        bvh_well_formed(bytes@),
    ensures
        r@ == bvh_fold(bvh_lines(bytes@)).pose,
        joint_names(r@.joints) == declared_names(bvh_lines(bytes@)),
{
    proof {
        lemma_bvh_joints(bvh_lines(bytes@));
    }
    match read_bvh(bytes) {
        Some(p) => p,
        None => {
            assert(false);
            BvhPose { joints: Vec::new(), frame: Vec::new() }
        },
    }
}

/// Whether every channel list that reading the file meets is complete (when
/// one is not, reading it panics).
pub fn bvh_channels_fit(bytes: &[u8]) -> (r: bool)
    ensures
        r == bvh_well_formed(bytes@),
{
    read_bvh(bytes).is_some()
}

/// Reads a pose file, or gives `None` where a channel list is incomplete.
fn read_bvh(bytes: &[u8]) -> (r: Option<BvhPose>)
    ensures
        r is Some <==> bvh_well_formed(bytes@),
        r matches Some(p) ==> p@ == bvh_fold(bvh_lines(bytes@)).pose,
{
    let (ls, _complete) = decode_lines(bytes);
    let ghost all = views(ls@);
    let mut st = BvhReader {
        in_hierarchy: false,
        in_motion: false,
        done: false,
        pose: BvhPose { joints: Vec::new(), frame: Vec::new() },
        overrun: false,
    };
    proof {
        assert(joint_views(st.pose.joints@) =~= seq![]);
        assert(string_views(st.pose.frame@) =~= seq![]);
        assert(all == bvh_lines(bytes@));
    }
    let mut i: usize = 0;
    while i < ls.len()
        invariant
            i <= ls.len(),
            all == views(ls@),
            all == bvh_lines(bytes@),
            reader_state(st) == bvh_fold(all.take(i as int)),
            bvh_fits(all.take(i as int)),
            !st.overrun,
        decreases ls.len() - i,
    {
        proof {
            assert(all.take(i + 1).drop_last() =~= all.take(i as int));
            assert(all[i as int] == ls@[i as int]@);
        }
        bvh_read_line(&mut st, &ls[i]);
        if st.overrun {
            proof {
                if bvh_fits(all) {
                    lemma_bvh_fits_prefix(all, i + 1);
                    assert(all.take(i + 1).drop_last() =~= all.take(i as int));
                }
            }
            return None;
        }
        i = i + 1;
    }
    proof {
        assert(all.take(i as int) =~= all);
    }
    Some(st.pose)
}

/// How many channels the joints before `j` have in all.
pub open spec fn channel_start(js: Seq<BvhJointView>, j: int) -> int
    decreases j,
{
    if j <= 0 || j > js.len() {
        0
    } else {
        channel_start(js, j - 1) + js[j - 1].channels.len()
    }
}

pub open spec fn min_int(a: int, b: int) -> int {
    if a <= b {
        a
    } else {
        b
    }
}

impl BvhPose {
    /// Hands out pose values to the joints' channels in order: joint `j`
    /// gets the values at the positions of its channels, as far as
    /// `values` reaches.
    pub fn channel_values<T: Copy>(&self, values: &[T]) -> (r: Vec<Vec<T>>)
        ensures
            r@.len() == self.joints@.len(),
            forall|j: int|
                0 <= j < r@.len() ==> #[trigger] r@[j]@ == values@.subrange(
                    min_int(channel_start(self@.joints, j), values@.len() as int),
                    min_int(channel_start(self@.joints, j + 1), values@.len() as int),
                ),
    {
        let n = values.len();
        let mut out: Vec<Vec<T>> = Vec::new();
        let mut idx: usize = 0;
        let mut j: usize = 0;
        while j < self.joints.len()
            invariant
                j <= self.joints@.len(),
                n == values@.len(),
                out@.len() == j,
                idx as int == min_int(channel_start(self@.joints, j as int), n as int),
                forall|k: int|
                    0 <= k < j ==> #[trigger] out@[k]@ == values@.subrange(
                        min_int(channel_start(self@.joints, k), n as int),
                        min_int(channel_start(self@.joints, k + 1), n as int),
                    ),
            decreases self.joints@.len() - j,
        {
            let count = self.joints[j].channels.len();
            assert(self@.joints[j as int].channels.len() == count);
            let end: usize = if count > n - idx {
                n
            } else {
                idx + count
            };
            let part = slice_to_vec(slice_subrange(values, idx, end));
            out.push(part);
            idx = end;
            j = j + 1;
        }
        out
    }
}

/// A file that fits also fits up to any line.
proof fn lemma_bvh_fits_prefix(ls: Seq<Seq<char>>, i: int)
    requires
        0 <= i <= ls.len(),
        bvh_fits(ls),
    ensures
        bvh_fits(ls.take(i)),
    decreases ls.len() - i,
{
    if i < ls.len() {
        lemma_bvh_fits_prefix(ls, i + 1);
        assert(ls.take(i + 1).drop_last() =~= ls.take(i));
    } else {
        assert(ls.take(i) =~= ls);
    }
}

} // verus!
