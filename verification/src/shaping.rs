//! Preparing one run for the glyph-shaping engine.
//!
//! The engine itself is an external collaborator; what is verified here is
//! everything the adapter decides: the script-tag heuristic taken from the
//! font's name, the validation of the glyph arrays the engine hands back,
//! and — through [`ShapeMachine`] — the bookkeeping that every resource a
//! shaping session acquires is released exactly once on every path.

use vstd::prelude::*;
use vstd::string::StrSliceExecFns;

verus! {

/// The glyph data shaped for one run.  The four arrays are parallel:
/// index `i` across them describes one glyph.
#[derive(Debug)]
pub struct ShapingResult {
    pub run_text: String,
    pub font_name: String,
    pub glyph_count: usize,
    pub glyph_ids: Vec<u32>,
    pub cluster_indices: Vec<u32>,
    pub x_advances: Vec<i32>,
    pub y_advances: Vec<i32>,
}

/// The mathematical content of a [`ShapingResult`].
#[verifier::ext_equal]
pub struct ShapingResultView {
    pub run_text: Seq<char>,
    pub font_name: Seq<char>,
    pub glyph_count: nat,
    pub glyph_ids: Seq<u32>,
    pub cluster_indices: Seq<u32>,
    pub x_advances: Seq<i32>,
    pub y_advances: Seq<i32>,
}

impl View for ShapingResult {
    type V = ShapingResultView;

    open spec fn view(&self) -> ShapingResultView {
        ShapingResultView {
            run_text: self.run_text@,
            font_name: self.font_name@,
            glyph_count: self.glyph_count as nat,
            glyph_ids: self.glyph_ids@,
            cluster_indices: self.cluster_indices@,
            x_advances: self.x_advances@,
            y_advances: self.y_advances@,
        }
    }
}

/// A well-formed result: all four arrays have length `glyph_count`, and
/// there is at least one glyph (an empty result is reported as a failure,
/// never as a result).
pub open spec fn shaping_result_wf(r: ShapingResultView) -> bool {
    &&& r.glyph_count > 0
    &&& r.glyph_ids.len() == r.glyph_count
    &&& r.cluster_indices.len() == r.glyph_count
    &&& r.x_advances.len() == r.glyph_count
    &&& r.y_advances.len() == r.glyph_count
}

/// The engine's read-back is usable: at least one glyph, and all four
/// arrays of equal length.
pub open spec fn glyph_arrays_ok(
    glyph_ids: Seq<u32>,
    cluster_indices: Seq<u32>,
    x_advances: Seq<i32>,
    y_advances: Seq<i32>,
) -> bool {
    &&& glyph_ids.len() > 0
    &&& cluster_indices.len() == glyph_ids.len()
    &&& x_advances.len() == glyph_ids.len()
    &&& y_advances.len() == glyph_ids.len()
}

/// `needle` occurs contiguously somewhere in `hay`.
pub open spec fn contains_seq(hay: Seq<char>, needle: Seq<char>) -> bool {
    exists|i: int|
        0 <= i && i + needle.len() <= hay.len() && #[trigger] hay.subrange(i, i + needle.len())
            == needle
}

/// The characters of `s`, in order.
fn chars_of(s: &str) -> (v: Vec<char>)
    ensures
        v@ == s@,
{
    let n: usize = s.unicode_len();
    let mut v: Vec<char> = Vec::new();
    let mut i: usize = 0;
    while i < n
        invariant
            i <= n,
            n == s@.len(),
            v@ == s@.take(i as int),
        decreases n - i,
    {
        let c = s.get_char(i);
        v.push(c);
        proof {
            assert(v@ =~= s@.take(i as int + 1));
        }
        i = i + 1;
    }
    proof {
        assert(s@.take(n as int) =~= s@);
    }
    v
}

/// Compares `needle` against `hay` at offset `at`.
fn match_at(hay: &Vec<char>, needle: &Vec<char>, at: usize) -> (b: bool)
    requires
        at + needle@.len() <= hay@.len(),
    ensures
        b == (hay@.subrange(at as int, at as int + needle@.len() as int) == needle@),
{
    let m: usize = needle.len();
    let total: usize = hay.len();
    let mut j: usize = 0;
    while j < m
        invariant
            j <= m,
            m == needle@.len(),
            total == hay@.len(),
            at + m <= total,
            forall|k: int| 0 <= k < j ==> hay@[at + k] == needle@[k],
        decreases m - j,
    {
        if hay[at + j] != needle[j] {
            proof {
                assert(hay@.subrange(at as int, at as int + m as int)[j as int]
                    != needle@[j as int]);
            }
            return false;
        }
        j = j + 1;
    }
    proof {
        assert(hay@.subrange(at as int, at as int + m as int) =~= needle@);
    }
    true
}

/// Whether `needle` occurs as a contiguous substring of `hay`.
pub fn str_contains(hay: &str, needle: &str) -> (b: bool)
    ensures
        b == contains_seq(hay@, needle@),
{
    let h = chars_of(hay);
    let n = chars_of(needle);
    if n.len() == 0 {
        proof {
            assert(needle@.len() == 0);
            assert(hay@.subrange(0, 0 + needle@.len() as int) =~= needle@);
            assert(contains_seq(hay@, needle@));
        }
        return true;
    }
    if n.len() > h.len() {
        return false;
    }
    let hl: usize = h.len();
    let end: usize = hl - n.len();
    let mut i: usize = 0;
    while i <= end
        invariant
            i <= end + 1,
            1 <= n@.len() <= h@.len(),
            h@.len() == hl,
            end == h@.len() - n@.len(),
            h@ == hay@,
            n@ == needle@,
            forall|k: int|
                0 <= k < i ==> #[trigger] hay@.subrange(k, k + needle@.len()) != needle@,
        decreases end + 1 - i,
    {
        if match_at(&h, &n, i) {
            proof {
                assert(hay@.subrange(i as int, i as int + needle@.len() as int) == needle@);
            }
            return true;
        }
        i = i + 1;
    }
    proof {
        assert(!contains_seq(hay@, needle@)) by {
            if contains_seq(hay@, needle@) {
                let w = choose|w: int|
                    0 <= w && w + needle@.len() <= hay@.len() && #[trigger] hay@.subrange(
                        w,
                        w + needle@.len(),
                    ) == needle@;
                assert(hay@.subrange(w, w + needle@.len()) != needle@);
            }
        }
    }
    false
}

/// The script tag handed to the shaping engine.
#[derive(Clone, Copy, Debug, PartialEq, Eq, Structural)]
pub enum ScriptTag {
    Common,
    Latin,
}

/// The tag chosen for a font name: common for emoji fonts, Latin otherwise.
pub open spec fn spec_script_for_font(font_name: Seq<char>) -> ScriptTag {
    if contains_seq(font_name, "Emoji"@) || contains_seq(font_name, "emoji"@) {
        ScriptTag::Common
    } else {
        ScriptTag::Latin
    }
}

/// Chooses the script tag for shaping from the font's name: a name holding
/// "Emoji" or "emoji" selects the common script, anything else defaults to
/// Latin — a name heuristic, not per-character script detection.
pub fn script_for_font_name(font_name: &str) -> (tag: ScriptTag)
    ensures
        tag == spec_script_for_font(font_name@),
{
    if str_contains(font_name, "Emoji") || str_contains(font_name, "emoji") {
        ScriptTag::Common
    } else {
        ScriptTag::Latin
    }
}

/// Where one run's shaping session stands.  A session moves forward through
/// the first five stages and ends in `Succeeded` or `Failed`; any failure
/// jumps straight to `Failed` after releasing what was acquired so far.
#[derive(Clone, Copy, Debug, PartialEq, Eq, Structural)]
pub enum ShapeStage {
    Start,
    FontBound,
    BufferReady,
    TextLoaded,
    Shaped,
    Succeeded,
    Failed,
}

/// What the driver must release right now, as instructed by a transition
/// of [`ShapeMachine`].
#[derive(Clone, Copy, Debug, PartialEq, Eq, Structural)]
pub struct ReleaseSet {
    pub font: bool,
    pub wrapper: bool,
    pub buffer: bool,
}

/// Nothing to release.
pub open spec fn no_release() -> ReleaseSet {
    ReleaseSet { font: false, wrapper: false, buffer: false }
}

/// The verified bookkeeping of one run's shaping session.
///
/// The engine calls themselves are made by an unverified driver; this
/// machine decides every transition and tells the driver exactly which of
/// the three resources — the retained platform font handle, the engine's
/// font wrapper, and the shaping buffer — to release at each step.  The
/// `*_acquired` / `*_released` flags record the session's whole history,
/// so the balance of acquisitions and releases is part of the machine's
/// well-formedness.
#[derive(Clone, Copy, Debug)]
pub struct ShapeMachine {
    pub stage: ShapeStage,
    pub font_acquired: bool,
    pub font_released: bool,
    pub wrapper_acquired: bool,
    pub wrapper_released: bool,
    pub buffer_acquired: bool,
    pub buffer_released: bool,
}

impl ShapeMachine {
    /// The session still owns the platform font handle.
    pub open spec fn font_held(self) -> bool {
        self.font_acquired && !self.font_released
    }

    /// The session still owns the engine's font wrapper.
    pub open spec fn wrapper_held(self) -> bool {
        self.wrapper_acquired && !self.wrapper_released
    }

    /// The session still owns the shaping buffer.
    pub open spec fn buffer_held(self) -> bool {
        self.buffer_acquired && !self.buffer_released
    }

    /// The session is over.
    pub open spec fn is_terminal(self) -> bool {
        self.stage is Succeeded || self.stage is Failed
    }

    /// Well-formedness: nothing is released before it is acquired, and the
    /// resources held are exactly those the current stage requires — in
    /// particular, a terminal session holds nothing.
    pub open spec fn wf(self) -> bool {
        &&& self.font_released ==> self.font_acquired
        &&& self.wrapper_released ==> self.wrapper_acquired
        &&& self.buffer_released ==> self.buffer_acquired
        &&& match self.stage {
            ShapeStage::Start => self.font_held() && !self.wrapper_acquired
                && !self.buffer_acquired,
            ShapeStage::FontBound => self.font_held() && self.wrapper_held()
                && !self.buffer_acquired,
            ShapeStage::BufferReady => self.font_held() && self.wrapper_held()
                && self.buffer_held(),
            ShapeStage::TextLoaded => self.font_held() && self.wrapper_held()
                && self.buffer_held(),
            ShapeStage::Shaped => self.font_held() && self.wrapper_held() && self.buffer_held(),
            ShapeStage::Succeeded => !self.font_held() && !self.wrapper_held()
                && !self.buffer_held(),
            ShapeStage::Failed => !self.font_held() && !self.wrapper_held()
                && !self.buffer_held(),
        }
    }

    /// Opens a session for a run whose font handle is `font_ptr`.  A null
    /// handle is rejected at once: the session ends failed with nothing
    /// acquired, as there is nothing to release.
    pub fn start(font_ptr: u64) -> (m: ShapeMachine)
        ensures
            m.wf(),
            font_ptr != 0 ==> m == (ShapeMachine {
                stage: ShapeStage::Start,
                font_acquired: true,
                font_released: false,
                wrapper_acquired: false,
                wrapper_released: false,
                buffer_acquired: false,
                buffer_released: false,
            }),
            font_ptr == 0 ==> m == (ShapeMachine {
                stage: ShapeStage::Failed,
                font_acquired: false,
                font_released: false,
                wrapper_acquired: false,
                wrapper_released: false,
                buffer_acquired: false,
                buffer_released: false,
            }),
    {
        if font_ptr != 0 {
            ShapeMachine {
                stage: ShapeStage::Start,
                font_acquired: true,
                font_released: false,
                wrapper_acquired: false,
                wrapper_released: false,
                buffer_acquired: false,
                buffer_released: false,
            }
        } else {
            ShapeMachine {
                stage: ShapeStage::Failed,
                font_acquired: false,
                font_released: false,
                wrapper_acquired: false,
                wrapper_released: false,
                buffer_acquired: false,
                buffer_released: false,
            }
        }
    }

    /// Records the outcome of building the engine's font wrapper from the
    /// platform handle.  On failure the session ends and the font handle
    /// must be released now.
    pub fn bind_font(&mut self, created: bool) -> (rel: ReleaseSet)
        requires
            old(self).wf(),
            old(self).stage is Start,
        ensures
            final(self).wf(),
            created ==> *final(self) == (ShapeMachine {
                stage: ShapeStage::FontBound,
                wrapper_acquired: true,
                ..*old(self)
            }) && rel == no_release(),
            !created ==> *final(self) == (ShapeMachine {
                stage: ShapeStage::Failed,
                font_released: true,
                ..*old(self)
            }) && rel == (ReleaseSet { font: true, wrapper: false, buffer: false }),
    {
        if created {
            self.stage = ShapeStage::FontBound;
            self.wrapper_acquired = true;
            ReleaseSet { font: false, wrapper: false, buffer: false }
        } else {
            self.stage = ShapeStage::Failed;
            self.font_released = true;
            ReleaseSet { font: true, wrapper: false, buffer: false }
        }
    }

    /// Records the outcome of creating the shaping buffer.  On failure the
    /// session ends and both the wrapper and the font must be released.
    pub fn create_buffer(&mut self, created: bool) -> (rel: ReleaseSet)
        requires
            old(self).wf(),
            old(self).stage is FontBound,
        ensures
            final(self).wf(),
            created ==> *final(self) == (ShapeMachine {
                stage: ShapeStage::BufferReady,
                buffer_acquired: true,
                ..*old(self)
            }) && rel == no_release(),
            !created ==> *final(self) == (ShapeMachine {
                stage: ShapeStage::Failed,
                font_released: true,
                wrapper_released: true,
                ..*old(self)
            }) && rel == (ReleaseSet { font: true, wrapper: true, buffer: false }),
    {
        if created {
            self.stage = ShapeStage::BufferReady;
            self.buffer_acquired = true;
            ReleaseSet { font: false, wrapper: false, buffer: false }
        } else {
            self.stage = ShapeStage::Failed;
            self.font_released = true;
            self.wrapper_released = true;
            ReleaseSet { font: true, wrapper: true, buffer: false }
        }
    }

    /// Records the outcome of loading the run's text into the buffer (it
    /// fails when the text cannot be handed over, e.g. an embedded NUL).
    /// On failure the session ends and all three resources must be
    /// released.
    pub fn load_text(&mut self, loaded: bool) -> (rel: ReleaseSet)
        requires
            old(self).wf(),
            old(self).stage is BufferReady,
        ensures
            final(self).wf(),
            loaded ==> *final(self) == (ShapeMachine {
                stage: ShapeStage::TextLoaded,
                ..*old(self)
            }) && rel == no_release(),
            !loaded ==> *final(self) == (ShapeMachine {
                stage: ShapeStage::Failed,
                font_released: true,
                wrapper_released: true,
                buffer_released: true,
                ..*old(self)
            }) && rel == (ReleaseSet { font: true, wrapper: true, buffer: true }),
    {
        if loaded {
            self.stage = ShapeStage::TextLoaded;
            ReleaseSet { font: false, wrapper: false, buffer: false }
        } else {
            self.stage = ShapeStage::Failed;
            self.font_released = true;
            self.wrapper_released = true;
            self.buffer_released = true;
            ReleaseSet { font: true, wrapper: true, buffer: true }
        }
    }

    /// Records that the engine's shaping call has run (the call itself
    /// cannot fail; what it produced is judged at [`Self::finish`]).
    pub fn shape(&mut self)
        requires
            old(self).wf(),
            old(self).stage is TextLoaded,
        ensures
            final(self).wf(),
            *final(self) == (ShapeMachine { stage: ShapeStage::Shaped, ..*old(self) }),
    {
        self.stage = ShapeStage::Shaped;
    }

    /// Judges the glyph arrays read back from the engine and closes the
    /// session: all three resources must be released now, on the success
    /// path as on the failure path.  The result is `Some` exactly when the
    /// arrays are usable — at least one glyph and equal lengths — and then
    /// carries the run's text and font name with the four arrays unchanged.
    pub fn finish(
        &mut self,
        run: &crate::runs::TextRun,
        glyph_ids: Vec<u32>,
        cluster_indices: Vec<u32>,
        x_advances: Vec<i32>,
        y_advances: Vec<i32>,
    ) -> (res: (Option<ShapingResult>, ReleaseSet))
        requires
            old(self).wf(),
            old(self).stage is Shaped,
        ensures
            final(self).wf(),
            final(self).is_terminal(),
            res.1 == (ReleaseSet { font: true, wrapper: true, buffer: true }),
            glyph_arrays_ok(glyph_ids@, cluster_indices@, x_advances@, y_advances@)
                ==> *final(self) == (ShapeMachine {
                stage: ShapeStage::Succeeded,
                font_released: true,
                wrapper_released: true,
                buffer_released: true,
                ..*old(self)
            }),
            !glyph_arrays_ok(glyph_ids@, cluster_indices@, x_advances@, y_advances@)
                ==> *final(self) == (ShapeMachine {
                stage: ShapeStage::Failed,
                font_released: true,
                wrapper_released: true,
                buffer_released: true,
                ..*old(self)
            }) && res.0 is None,
            match res.0 {
                Some(sr) => glyph_arrays_ok(glyph_ids@, cluster_indices@, x_advances@, y_advances@)
                    && sr@ == (ShapingResultView {
                    run_text: run.text@,
                    font_name: run.font_name@,
                    glyph_count: glyph_ids@.len(),
                    glyph_ids: glyph_ids@,
                    cluster_indices: cluster_indices@,
                    x_advances: x_advances@,
                    y_advances: y_advances@,
                }) && shaping_result_wf(sr@),
                None => !glyph_arrays_ok(glyph_ids@, cluster_indices@, x_advances@, y_advances@),
            },
    {
        self.font_released = true;
        self.wrapper_released = true;
        self.buffer_released = true;
        let count: usize = glyph_ids.len();
        if count > 0 && cluster_indices.len() == count && x_advances.len() == count
            && y_advances.len() == count {
            self.stage = ShapeStage::Succeeded;
            let result = ShapingResult {
                run_text: run.text.clone(),
                font_name: run.font_name.clone(),
                glyph_count: count,
                glyph_ids,
                cluster_indices,
                x_advances,
                y_advances,
            };
            proof {
                assert(result@ =~= (ShapingResultView {
                    run_text: run.text@,
                    font_name: run.font_name@,
                    glyph_count: glyph_ids@.len(),
                    glyph_ids: glyph_ids@,
                    cluster_indices: cluster_indices@,
                    x_advances: x_advances@,
                    y_advances: y_advances@,
                }));
            }
            (Some(result), ReleaseSet { font: true, wrapper: true, buffer: true })
        } else {
            self.stage = ShapeStage::Failed;
            (None, ReleaseSet { font: true, wrapper: true, buffer: true })
        }
    }
}

/// Resource-balance law: when a shaping session has ended — succeeded or
/// failed, on any path — every resource it acquired has been released, and
/// none was released without having been acquired.
pub proof fn lemma_shape_resources_balanced(m: ShapeMachine)
    requires
        m.wf(),
        m.is_terminal(),
    ensures
        m.font_released == m.font_acquired,
        m.wrapper_released == m.wrapper_acquired,
        m.buffer_released == m.buffer_acquired,
{
}

} // verus!
