use crate::text::{push_char, reversed};
use vstd::prelude::*;

verus! {

/// U+200D ZERO WIDTH JOINER.
pub const ZERO_WIDTH_JOINER: char = '\u{200D}';

/// A run of text with one embedding level, as the bidirectional algorithm
/// resolved it.
pub struct VisualRun {
    /// The embedding level: odd levels run right to left.
    pub level: u8,
    /// The text of the run in logical order.
    pub text: String,
}

/// The level runs of the first paragraph of `text` in visual order, each
/// with its embedding level and its characters in logical order, as the
/// Unicode bidirectional algorithm resolves them.
pub uninterp spec fn visual_runs_of(text: Seq<char>) -> Seq<(u8, Seq<char>)>;

/// `text` with every Arabic letter replaced by the presentation form that
/// its neighbours call for, and with the default ligatures joined.
pub uninterp spec fn reshaped(text: Seq<char>) -> Seq<char>;

/// Whether a run of this embedding level runs right to left.
pub open spec fn is_rtl_level(level: u8) -> bool {
    level % 2 == 1
}

/// The test for any character but the zero width joiner, as a predicate.
pub open spec fn not_joiner() -> spec_fn(char) -> bool {
    |c: char| c != ZERO_WIDTH_JOINER
}

/// `text` without its zero width joiners.
pub open spec fn without_joiners(text: Seq<char>) -> Seq<char> {
    text.filter(not_joiner())
}

/// What is drawn for one run, left to right: a run that runs left to
/// right as it is, one that runs right to left in its shaped form, last
/// character first.
pub open spec fn run_display(level: u8, text: Seq<char>, shaped: Seq<char>) -> Seq<char> {
    if is_rtl_level(level) {
        shaped.reverse()
    } else {
        text
    }
}

/// What is drawn for a sequence of runs in visual order. A run that runs
/// right to left is shaped without its zero width joiners.
pub open spec fn runs_display(runs: Seq<(u8, Seq<char>)>) -> Seq<char>
    decreases runs.len(),
{
    if runs.len() == 0 {
        Seq::empty()
    } else {
        runs_display(runs.drop_last()) + run_display(
            runs.last().0,
            runs.last().1,
            reshaped(without_joiners(runs.last().1)),
        )
    }
}

/// The display order of a text: nothing for an empty text, else what is
/// drawn for the runs of its first paragraph. A label line is one
/// paragraph: what follows a paragraph separator is not drawn.
pub open spec fn display_order(text: Seq<char>) -> Seq<char> {
    if text.len() == 0 {
        Seq::empty()
    } else {
        runs_display(visual_runs_of(text))
    }
}

/// The views of a sequence of runs.
pub open spec fn run_views(runs: Seq<VisualRun>) -> Seq<(u8, Seq<char>)> {
    Seq::new(runs.len(), |i: int| (runs[i].level, runs[i].text@))
}

/// `BidiInfo::new` and `BidiInfo::visual_runs` of unicode-bidi, for the
/// first paragraph of `text` with the base direction taken from the text:
/// the level runs in visual order, each handed out with the level number of
/// its first byte and a copy of its slice of the text. A text without
/// characters has no paragraph and is not asked about.
#[verifier::external_body]
fn visual_runs(text: &str) -> (runs: Vec<VisualRun>)
    requires
        text@.len() > 0,
    ensures
        run_views(runs@) == visual_runs_of(text@),
{
    let info = unicode_bidi::BidiInfo::new(text, None);
    let para = &info.paragraphs[0];
    let (levels, ranges) = info.visual_runs(para, para.range.clone());
    let mut runs = Vec::new();
    for range in ranges {
        runs.push(VisualRun { level: levels[range.start].number(), text: text[range].to_string() });
    }
    runs
}

/// `reshape_line` of ar-reshaper: contextual shaping with the default
/// configuration. A text with a zero width joiner is not asked about: the
/// reshaper may index past its letters on one.
#[verifier::external_body]
fn reshape(text: &str) -> (out: String)
    requires
        !text@.contains(ZERO_WIDTH_JOINER),
    ensures
        out@ == reshaped(text@),
{
    ar_reshaper::reshape_line(text)
}

/// Appending a character to a text appends it to the text without
/// joiners, unless it is a joiner.
proof fn lemma_without_joiners_push(s: Seq<char>, c: char)
    ensures
        without_joiners(s.push(c)) == if c != ZERO_WIDTH_JOINER {
            without_joiners(s).push(c)
        } else {
            without_joiners(s)
        },
{
    reveal(Seq::filter);
    assert(s.push(c).drop_last() =~= s);
}

/// A text without its joiners holds no joiner.
proof fn lemma_without_joiners_has_none(s: Seq<char>)
    ensures
        !without_joiners(s).contains(ZERO_WIDTH_JOINER),
{
    if without_joiners(s).contains(ZERO_WIDTH_JOINER) {
        let i = choose|i: int|
            0 <= i < without_joiners(s).len() && without_joiners(s)[i] == ZERO_WIDTH_JOINER;
        s.lemma_filter_pred(not_joiner(), i);
    }
}

/// The texts of a sequence of runs, one after the other.
pub open spec fn runs_text(runs: Seq<(u8, Seq<char>)>) -> Seq<char>
    decreases runs.len(),
{
    if runs.len() == 0 {
        Seq::empty()
    } else {
        runs_text(runs.drop_last()) + runs.last().1
    }
}

/// Where no run runs right to left, what is drawn is the text of the runs
/// as it is: digits, Latin text and punctuation keep their order.
pub proof fn lemma_left_to_right_runs_unchanged(runs: Seq<(u8, Seq<char>)>)
    requires
        forall|i: int| 0 <= i < runs.len() ==> !is_rtl_level((#[trigger] runs[i]).0),
    ensures
        runs_display(runs) == runs_text(runs),
    decreases runs.len(),
{
    if runs.len() > 0 {
        lemma_left_to_right_runs_unchanged(runs.drop_last());
    }
}

/// `text` without its zero width joiners.
pub fn strip_joiners(text: &str) -> (out: String)
    ensures
        out@ == without_joiners(text@),
{
    let mut out: String = String::new();
    for c in it: text.chars()
        invariant
            it.seq() == text@,
            out@ == without_joiners(it.seq().take(it.index())),
    {
        proof {
            let prefix = text@.take(it.index());
            assert(text@.take(it.index() + 1) =~= prefix.push(c));
            lemma_without_joiners_push(prefix, c);
        }
        if c != ZERO_WIDTH_JOINER {
            push_char(&mut out, c);
        }
    }
    proof {
        assert(text@.take(text@.len() as int) =~= text@);
    }
    out
}

/// What is drawn for one run whose shaped form is `shaped`: the text as it
/// is where the level is even, the shaped form with its last character
/// first where the level is odd.
pub fn arrange_run(level: u8, text: &str, shaped: &str) -> (out: String)
    ensures
        out@ == run_display(level, text@, shaped@),
{
    if level % 2 == 1 {
        reversed(shaped)
    } else {
        text.to_owned()
    }
}

/// What is drawn for a sequence of runs in visual order. Each run that
/// runs right to left is shaped, without its zero width joiners, and then
/// turned round, on its own; the runs that run left to right, digits and
/// Latin text among them, keep the order of their characters.
pub fn display_runs(runs: &Vec<VisualRun>) -> (out: String)
    ensures
        out@ == runs_display(run_views(runs@)),
{
    let mut out: String = String::new();
    let n: usize = runs.len();
    let mut i: usize = 0;
    while i < n
        invariant
            n == runs@.len(),
            i <= n,
            out@ == runs_display(run_views(runs@).take(i as int)),
        decreases n - i,
    {
        let run: &VisualRun = &runs[i];
        proof {
            let next = run_views(runs@).take(i + 1);
            assert(next.drop_last() =~= run_views(runs@).take(i as int));
            assert(next.last() == (run.level, run.text@));
        }
        let piece: String = if run.level % 2 == 1 {
            let plain: String = strip_joiners(run.text.as_str());
            proof {
                lemma_without_joiners_has_none(run.text@);
            }
            let shaped: String = reshape(plain.as_str());
            arrange_run(run.level, run.text.as_str(), shaped.as_str())
        } else {
            arrange_run(run.level, run.text.as_str(), run.text.as_str())
        };
        out.append(piece.as_str());
        i += 1;
    }
    proof {
        assert(run_views(runs@).take(n as int) =~= run_views(runs@));
    }
    out
}

/// Brings a text from logical order into the order in which its glyphs are
/// drawn from left to right. An empty text stays empty. Only the first
/// paragraph of the text is drawn: what follows a paragraph separator is
/// left out.
pub fn bidi_then_shape(text: &str) -> (out: String)
    ensures
        out@ == display_order(text@),
        text@.len() == 0 ==> out@.len() == 0,
{
    if text.is_empty() {
        return String::new();
    }
    let runs: Vec<VisualRun> = visual_runs(text);
    display_runs(&runs)
}

} // verus!
