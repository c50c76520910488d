//! Collecting font runs reported by the layout service.
//!
//! The unverified front end walks the layout frame line by line and hands
//! over, in order, one [`RunRaw`] descriptor per reported run.  Everything
//! after that walk is verified here: each descriptor is validated against
//! the source's code-unit length, runs without a font or a name are
//! discarded, and each emitted [`TextRun`] carries the substring its
//! code-unit range stands for.

use vstd::prelude::*;
use crate::utf16::{encode_utf16, encode_utf16_units, map_to_text, mapped_text};

verus! {

/// One run of the source text that a single font renders, in left-to-right
/// document order.  `font_ptr` is an owning reference to the platform font,
/// already extended past the frame's lifetime, held as a plain integer; it
/// must be released exactly once after shaping.
#[derive(Debug, Clone)]
pub struct TextRun {
    pub text: String,
    pub font_name: String,
    pub start_utf16: usize,
    pub length_utf16: usize,
    pub font_ptr: u64,
}

/// The mathematical content of a [`TextRun`].
#[verifier::ext_equal]
pub struct TextRunView {
    pub text: Seq<char>,
    pub font_name: Seq<char>,
    pub start_utf16: nat,
    pub length_utf16: nat,
    pub font_ptr: u64,
}

impl View for TextRun {
    type V = TextRunView;

    open spec fn view(&self) -> TextRunView {
        TextRunView {
            text: self.text@,
            font_name: self.font_name@,
            start_utf16: self.start_utf16 as nat,
            length_utf16: self.length_utf16 as nat,
            font_ptr: self.font_ptr,
        }
    }
}

/// One run as the layout service reports it, before validation: a signed
/// 16-bit-code-unit range, the font attribute (0 when absent), and the
/// font's canonical name (empty when it could not be obtained).
#[derive(Debug, Clone)]
pub struct RunRaw {
    pub utf16_location: i64,
    pub utf16_length: i64,
    pub postscript_name: String,
    pub font_ptr: u64,
}

/// The mathematical content of a [`RunRaw`].
#[verifier::ext_equal]
pub struct RunRawView {
    pub utf16_location: int,
    pub utf16_length: int,
    pub postscript_name: Seq<char>,
    pub font_ptr: u64,
}

impl View for RunRaw {
    type V = RunRawView;

    open spec fn view(&self) -> RunRawView {
        RunRawView {
            utf16_location: self.utf16_location as int,
            utf16_length: self.utf16_length as int,
            postscript_name: self.postscript_name@,
            font_ptr: self.font_ptr,
        }
    }
}

/// The views of a sequence of collected runs.
pub open spec fn run_views(runs: Seq<TextRun>) -> Seq<TextRunView> {
    runs.map_values(|t: TextRun| t@)
}

/// The views of a sequence of reported runs.
pub open spec fn raw_views(raws: Seq<RunRaw>) -> Seq<RunRawView> {
    raws.map_values(|r: RunRaw| r@)
}

/// A reported run is kept exactly when its range lies within the source's
/// code-unit length, it carries a font, and the font's name is non-empty.
pub open spec fn run_raw_valid(raw: RunRawView, total_units: nat) -> bool {
    &&& 0 <= raw.utf16_location
    &&& 0 <= raw.utf16_length
    &&& raw.utf16_location + raw.utf16_length <= total_units
    &&& raw.font_ptr != 0
    &&& raw.postscript_name.len() > 0
}

/// The run emitted for a kept descriptor: its text is the decoding of its
/// code-unit slice of the source's encoding.
pub open spec fn text_run_of(units: Seq<u16>, raw: RunRawView) -> TextRunView {
    TextRunView {
        text: mapped_text(units, raw.utf16_location, raw.utf16_length),
        font_name: raw.postscript_name,
        start_utf16: raw.utf16_location as nat,
        length_utf16: raw.utf16_length as nat,
        font_ptr: raw.font_ptr,
    }
}

/// The runs collected from the reported descriptors, in order: every valid
/// one is kept, every other is silently dropped.
pub open spec fn collected_runs(units: Seq<u16>, raws: Seq<RunRawView>) -> Seq<TextRunView>
    decreases raws.len(),
{
    if raws.len() == 0 {
        Seq::empty()
    } else {
        let rest = collected_runs(units, raws.drop_first());
        if run_raw_valid(raws[0], units.len()) {
            seq![text_run_of(units, raws[0])] + rest
        } else {
            rest
        }
    }
}

/// Appending one descriptor appends its run exactly when it is valid.
pub proof fn lemma_collected_runs_snoc(units: Seq<u16>, raws: Seq<RunRawView>, raw: RunRawView)
    ensures
        collected_runs(units, raws.push(raw)) == collected_runs(units, raws) + (
        if run_raw_valid(raw, units.len()) {
            seq![text_run_of(units, raw)]
        } else {
            Seq::<TextRunView>::empty()
        }),
    decreases raws.len(),
{
    let add = if run_raw_valid(raw, units.len()) {
        seq![text_run_of(units, raw)]
    } else {
        Seq::<TextRunView>::empty()
    };
    if raws.len() == 0 {
        assert(raws.push(raw).drop_first() =~= Seq::<RunRawView>::empty());
        assert(raws.push(raw)[0] == raw);
        assert(collected_runs(units, Seq::<RunRawView>::empty()) =~= Seq::<TextRunView>::empty());
        assert(collected_runs(units, raws.push(raw).drop_first()) =~= Seq::<TextRunView>::empty());
        assert(collected_runs(units, raws.push(raw)) =~= collected_runs(units, raws) + add);
    } else {
        assert(raws.push(raw)[0] == raws[0]);
        assert(raws.push(raw).drop_first() =~= raws.drop_first().push(raw));
        lemma_collected_runs_snoc(units, raws.drop_first(), raw);
        let tail = collected_runs(units, raws.drop_first());
        if run_raw_valid(raws[0], units.len()) {
            assert(collected_runs(units, raws.push(raw)) =~= seq![text_run_of(units, raws[0])] + (
            tail + add));
            assert(seq![text_run_of(units, raws[0])] + (tail + add) =~= (seq![
                text_run_of(units, raws[0]),
            ] + tail) + add);
            assert(collected_runs(units, raws.push(raw)) =~= collected_runs(units, raws) + add);
        } else {
            assert(collected_runs(units, raws.push(raw)) =~= collected_runs(units, raws) + add);
        }
    }
}

/// When every reported run is valid, collection keeps them all, in order.
pub proof fn lemma_collected_runs_all_valid(units: Seq<u16>, raws: Seq<RunRawView>)
    requires
        forall|i: int| 0 <= i < raws.len() ==> run_raw_valid(#[trigger] raws[i], units.len()),
    ensures
        collected_runs(units, raws).len() == raws.len(),
        forall|i: int|
            0 <= i < raws.len() ==> #[trigger] collected_runs(units, raws)[i] == text_run_of(
                units,
                raws[i],
            ),
    decreases raws.len(),
{
    if raws.len() > 0 {
        assert forall|j: int| 0 <= j < raws.drop_first().len() implies run_raw_valid(
            #[trigger] raws.drop_first()[j],
            units.len(),
        ) by {
            assert(raws.drop_first()[j] == raws[j + 1]);
        }
        lemma_collected_runs_all_valid(units, raws.drop_first());
        assert forall|i: int| 0 <= i < raws.len() implies #[trigger] collected_runs(units, raws)[i]
            == text_run_of(units, raws[i]) by {
            if i > 0 {
                assert(collected_runs(units, raws)[i] == collected_runs(
                    units,
                    raws.drop_first(),
                )[i - 1]);
                assert(raws.drop_first()[i - 1] == raws[i]);
            }
        }
    }
}

/// The reported runs tile the whole code-unit range: each is valid, the
/// first starts at 0, each starts where the one before it ends, and the
/// last ends at the total length.
pub open spec fn raws_tile(raws: Seq<RunRawView>, total_units: nat) -> bool {
    &&& forall|i: int| 0 <= i < raws.len() ==> run_raw_valid(#[trigger] raws[i], total_units)
    &&& (raws.len() == 0 ==> total_units == 0)
    &&& (raws.len() > 0 ==> raws[0].utf16_location == 0)
    &&& (raws.len() > 0 ==> raws[raws.len() - 1].utf16_location + raws[raws.len()
        - 1].utf16_length == total_units)
    &&& forall|i: int|
        0 <= i < raws.len() - 1 ==> #[trigger] raws[i + 1].utf16_location == raws[i].utf16_location
            + raws[i].utf16_length
}

/// The runs partition `[0, total_units)`: sorted by start, no gaps, no
/// overlaps, together covering the whole range exactly.
pub open spec fn runs_partition(runs: Seq<TextRunView>, total_units: nat) -> bool {
    &&& (runs.len() == 0 ==> total_units == 0)
    &&& (runs.len() > 0 ==> runs[0].start_utf16 == 0)
    &&& (runs.len() > 0 ==> runs[runs.len() - 1].start_utf16 + runs[runs.len() - 1].length_utf16
        == total_units)
    &&& forall|i: int|
        0 <= i < runs.len() - 1 ==> #[trigger] runs[i + 1].start_utf16 == runs[i].start_utf16
            + runs[i].length_utf16
}

/// Coverage law: when the layout service reports runs that tile the whole
/// code-unit range and each carries a font and a non-empty name, the
/// collected runs, in emitted order, partition `[0, total_units)` with no
/// gaps and no overlaps.
pub proof fn lemma_collected_runs_partition(units: Seq<u16>, raws: Seq<RunRawView>)
    requires
        raws_tile(raws, units.len()),
    ensures
        runs_partition(collected_runs(units, raws), units.len()),
{
    lemma_collected_runs_all_valid(units, raws);
    let runs = collected_runs(units, raws);
    assert forall|i: int| 0 <= i < runs.len() - 1 implies #[trigger] runs[i + 1].start_utf16
        == runs[i].start_utf16 + runs[i].length_utf16 by {
        assert(runs[i] == text_run_of(units, raws[i]));
        assert(runs[i + 1] == text_run_of(units, raws[i + 1]));
        assert(raws[i + 1].utf16_location == raws[i].utf16_location + raws[i].utf16_length);
    }
    if runs.len() > 0 {
        assert(runs[0] == text_run_of(units, raws[0]));
        assert(runs[runs.len() - 1] == text_run_of(units, raws[raws.len() - 1]));
    }
}

/// Round-trip law: every collected run's `text` is exactly the decoding of
/// its `[start_utf16, start_utf16 + length_utf16)` slice of the source's
/// code-unit encoding.
pub proof fn lemma_collected_run_text_round_trip(units: Seq<u16>, raws: Seq<RunRawView>, i: int)
    requires
        0 <= i < collected_runs(units, raws).len(),
    ensures
        ({
            let r = collected_runs(units, raws)[i];
            r.text == mapped_text(units, r.start_utf16 as int, r.length_utf16 as int)
        }),
    decreases raws.len(),
{
    if raws.len() > 0 {
        if run_raw_valid(raws[0], units.len()) {
            if i > 0 {
                lemma_collected_run_text_round_trip(units, raws.drop_first(), i - 1);
            }
        } else {
            lemma_collected_run_text_round_trip(units, raws.drop_first(), i);
        }
    }
}

/// Idempotence law: collecting runs twice from the same source text and
/// the same reported descriptors yields the same run list, range for range
/// and font name for font name.
pub proof fn lemma_collect_runs_idempotent(
    units: Seq<u16>,
    raws: Seq<RunRawView>,
    first: Seq<TextRunView>,
    second: Seq<TextRunView>,
)
    requires
        first == collected_runs(units, raws),
        second == collected_runs(units, raws),
    ensures
        first == second,
{
}

/// Decides, once at startup, whether the process-wide font-attribute key
/// resolved from the platform may be used: it is rejected when null or at
/// an implausibly low address, and trusted thereafter.
pub fn font_key_address_usable(addr: u64) -> (ok: bool)
    ensures
        ok == (addr >= 0x1000),
{
    addr >= 0x1000
}

/// Checks whether a reported run is kept.
pub fn run_raw_acceptable(raw: &RunRaw, total_units: usize) -> (ok: bool)
    ensures
        ok == run_raw_valid(raw@, total_units as nat),
{
    if raw.utf16_location < 0 || raw.utf16_length < 0 {
        return false;
    }
    let loc: u64 = raw.utf16_location as u64;
    let len: u64 = raw.utf16_length as u64;
    if loc > total_units as u64 || len > total_units as u64 - loc {
        return false;
    }
    raw.font_ptr != 0 && !raw.postscript_name.as_str().is_empty()
}

/// Walks the reported descriptors in order and emits one [`TextRun`] per
/// valid one, with its range, its font, and the substring of `text` that
/// its code-unit range stands for; invalid descriptors are dropped.
pub fn collect_runs(text: &str, raws: &Vec<RunRaw>) -> (runs: Vec<TextRun>)
    ensures
        run_views(runs@) == collected_runs(encode_utf16(text@), raw_views(raws@)),
{
    let units = encode_utf16_units(text);
    let total: usize = units.len();
    let mut runs: Vec<TextRun> = Vec::new();
    let mut i: usize = 0;
    proof {
        assert(raw_views(raws@.take(0)) =~= Seq::<RunRawView>::empty());
        assert(run_views(runs@) =~= Seq::<TextRunView>::empty());
    }
    while i < raws.len()
        invariant
            i <= raws.len(),
            units@ == encode_utf16(text@),
            total == units@.len(),
            run_views(runs@) == collected_runs(units@, raw_views(raws@.take(i as int))),
        decreases raws.len() - i,
    {
        let ghost prev_runs = runs@;
        let raw = &raws[i];
        if run_raw_acceptable(raw, total) {
            let start: usize = raw.utf16_location as usize;
            let length: usize = raw.utf16_length as usize;
            let run_text = map_to_text(&units, start, length);
            runs.push(
                TextRun {
                    text: run_text,
                    font_name: raw.postscript_name.clone(),
                    start_utf16: start,
                    length_utf16: length,
                    font_ptr: raw.font_ptr,
                },
            );
            proof {
                assert(runs@[runs@.len() - 1]@ =~= text_run_of(units@, raws@[i as int]@));
                assert(run_views(runs@) =~= run_views(prev_runs).push(
                    text_run_of(units@, raws@[i as int]@),
                ));
            }
        }
        proof {
            lemma_collected_runs_snoc(units@, raw_views(raws@.take(i as int)), raws@[i as int]@);
            assert(raw_views(raws@.take(i as int + 1)) =~= raw_views(raws@.take(i as int)).push(
                raws@[i as int]@,
            ));
            if run_raw_valid(raws@[i as int]@, units@.len()) {
                assert(run_views(prev_runs).push(text_run_of(units@, raws@[i as int]@))
                    =~= collected_runs(units@, raw_views(raws@.take(i as int))) + seq![
                    text_run_of(units@, raws@[i as int]@),
                ]);
            } else {
                assert(collected_runs(units@, raw_views(raws@.take(i as int))) + Seq::<
                    TextRunView,
                >::empty() =~= collected_runs(units@, raw_views(raws@.take(i as int))));
            }
        }
        i = i + 1;
    }
    proof {
        assert(raws@.take(raws@.len() as int) =~= raws@);
    }
    runs
}

} // verus!
