//! The text a transcription prints: plain text, the joined text of the JSON
//! report, and SRT subtitles.
use vstd::prelude::*;
use crate::text::{push_char, decimal, push_decimal, push_zero_padded, trim, trimmed, zero_padded};

verus! {

/// The texts of a list of strings.
pub open spec fn texts_view(texts: Seq<String>) -> Seq<Seq<char>> {
    texts.map_values(|t: String| t@)
}

/// Plain-text output: each segment's trimmed text that is not empty,
/// followed by one space.
pub open spec fn plain_text(texts: Seq<Seq<char>>) -> Seq<char>
    decreases texts.len(),
{
    if texts.len() == 0 {
        Seq::empty()
    } else {
        let t = trimmed(texts.last());
        if t.len() == 0 {
            plain_text(texts.drop_last())
        } else {
            plain_text(texts.drop_last()) + t.push(' ')
        }
    }
}

/// The trimmed texts that are not empty, joined by single spaces.
pub open spec fn joined_text(texts: Seq<Seq<char>>) -> Seq<char>
    decreases texts.len(),
{
    if texts.len() == 0 {
        Seq::empty()
    } else {
        let prev = joined_text(texts.drop_last());
        let t = trimmed(texts.last());
        if t.len() == 0 {
            prev
        } else if prev.len() == 0 {
            t
        } else {
            prev.push(' ') + t
        }
    }
}

/// Plain-text output of the segment texts.
pub fn render_plain_text(texts: &[String]) -> (r: String)
    ensures
        r@ == plain_text(texts_view(texts@)),
{
    let mut r = String::new();
    let n = texts.len();
    let mut i: usize = 0;
    while i < n
        invariant
            i <= n,
            n == texts@.len(),
            r@ == plain_text(texts_view(texts@.subrange(0, i as int))),
        decreases n - i,
    {
        let t = trim(texts[i].as_str());
        assert(texts_view(texts@.subrange(0, i + 1)).drop_last() =~= texts_view(
            texts@.subrange(0, i as int),
        ));
        assert(texts_view(texts@.subrange(0, i + 1)).last() == texts@[i as int]@);
        if t.as_str().unicode_len() > 0 {
            r.append(t.as_str());
            push_char(&mut r, ' ');
            assert(r@ =~= plain_text(texts_view(texts@.subrange(0, i + 1))));
        }
        i = i + 1;
    }
    assert(texts@.subrange(0, n as int) =~= texts@);
    r
}

/// The segment texts joined into one text, as the JSON report holds it.
pub fn render_joined_text(texts: &[String]) -> (r: String)
    ensures
        r@ == joined_text(texts_view(texts@)),
{
    let mut r = String::new();
    let n = texts.len();
    let mut i: usize = 0;
    while i < n
        invariant
            i <= n,
            n == texts@.len(),
            r@ == joined_text(texts_view(texts@.subrange(0, i as int))),
        decreases n - i,
    {
        let t = trim(texts[i].as_str());
        assert(texts_view(texts@.subrange(0, i + 1)).drop_last() =~= texts_view(
            texts@.subrange(0, i as int),
        ));
        assert(texts_view(texts@.subrange(0, i + 1)).last() == texts@[i as int]@);
        if t.as_str().unicode_len() > 0 {
            if r.as_str().unicode_len() > 0 {
                push_char(&mut r, ' ');
            }
            r.append(t.as_str());
            assert(r@ =~= joined_text(texts_view(texts@.subrange(0, i + 1))));
        }
        i = i + 1;
    }
    assert(texts@.subrange(0, n as int) =~= texts@);
    r
}

/// The plain text is the joined text followed by one space, or nothing when
/// no segment has text.
pub proof fn law_plain_text_is_joined_text(texts: Seq<Seq<char>>)
    ensures
        plain_text(texts) == if joined_text(texts).len() == 0 {
            Seq::<char>::empty()
        } else {
            joined_text(texts).push(' ')
        },
    decreases texts.len(),
{
    if texts.len() > 0 {
        law_plain_text_is_joined_text(texts.drop_last());
        let prev = joined_text(texts.drop_last());
        let t = trimmed(texts.last());
        if t.len() > 0 && prev.len() > 0 {
            assert(plain_text(texts) =~= joined_text(texts).push(' '));
        }
    }
}

/// An SRT timestamp for `ms` milliseconds: `HH:MM:SS,mmm`, hours padded to
/// two digits and allowed more.
pub open spec fn srt_time(ms: nat) -> Seq<char> {
    let total_s = ms / 1000;
    let total_m = total_s / 60;
    zero_padded(total_m / 60, 2) + ":"@ + zero_padded(total_m % 60, 2) + ":"@ + zero_padded(
        total_s % 60,
        2,
    ) + ","@ + zero_padded(ms % 1000, 3)
}

/// One subtitle: its span in milliseconds and its text.
pub struct SrtCue {
    pub start_ms: u64,
    pub end_ms: u64,
    pub text: String,
}

/// What an [`SrtCue`] holds.
pub struct SrtCueView {
    pub start_ms: nat,
    pub end_ms: nat,
    pub text: Seq<char>,
}

impl View for SrtCue {
    type V = SrtCueView;

    open spec fn view(&self) -> SrtCueView {
        SrtCueView { start_ms: self.start_ms as nat, end_ms: self.end_ms as nat, text: self.text@ }
    }
}

/// The SRT block of the cue numbered `number`.
pub open spec fn srt_block(number: nat, cue: SrtCueView) -> Seq<char> {
    decimal(number) + "\n"@ + srt_time(cue.start_ms) + " --> "@ + srt_time(cue.end_ms) + "\n"@
        + trimmed(cue.text) + "\n\n"@
}

/// An SRT document: the cues numbered from 1 in order.
pub open spec fn srt_document(cues: Seq<SrtCueView>) -> Seq<char>
    decreases cues.len(),
{
    if cues.len() == 0 {
        Seq::empty()
    } else {
        srt_document(cues.drop_last()) + srt_block(cues.len(), cues.last())
    }
}

pub open spec fn cues_view(cues: Seq<SrtCue>) -> Seq<SrtCueView> {
    cues.map_values(|c: SrtCue| c@)
}

/// Appends the SRT timestamp of `ms` milliseconds.
fn push_srt_time(out: &mut String, ms: u64)
    ensures
        final(out)@ == old(out)@ + srt_time(ms as nat),
{
    let total_s = ms / 1000;
    let total_m = total_s / 60;
    push_zero_padded(out, total_m / 60, 2);
    out.append(":");
    push_zero_padded(out, total_m % 60, 2);
    out.append(":");
    push_zero_padded(out, total_s % 60, 2);
    out.append(",");
    push_zero_padded(out, ms % 1000, 3);
    assert(out@ =~= old(out)@ + srt_time(ms as nat));
}

/// The SRT timestamp of `ms` milliseconds.
pub fn srt_timestamp(ms: u64) -> (r: String)
    ensures
        r@ == srt_time(ms as nat),
{
    let mut r = String::new();
    push_srt_time(&mut r, ms);
    assert(r@ =~= srt_time(ms as nat));
    r
}

/// SRT subtitles for the cues, numbered from 1.
#[verifier::rlimit(40)]
pub fn render_srt(cues: &[SrtCue]) -> (r: String)
    ensures
        r@ == srt_document(cues_view(cues@)),
{
    let mut r = String::new();
    let n = cues.len();
    let mut i: usize = 0;
    while i < n
        invariant
            i <= n,
            n == cues@.len(),
            r@ == srt_document(cues_view(cues@.subrange(0, i as int))),
        decreases n - i,
    {
        let cue = &cues[i];
        let ghost before = r@;
        push_decimal(&mut r, (i + 1) as u64);
        r.append("\n");
        push_srt_time(&mut r, cue.start_ms);
        r.append(" --> ");
        push_srt_time(&mut r, cue.end_ms);
        r.append("\n");
        let t = trim(cue.text.as_str());
        r.append(t.as_str());
        r.append("\n\n");
        assert(cues_view(cues@.subrange(0, i + 1)).drop_last() =~= cues_view(
            cues@.subrange(0, i as int),
        ));
        assert(cues_view(cues@.subrange(0, i + 1)).last() == cues@[i as int]@);
        assert(r@ =~= before + srt_block((i + 1) as nat, cues@[i as int]@));
        i = i + 1;
    }
    assert(cues@.subrange(0, n as int) =~= cues@);
    r
}

/// What one segment adds to the plain text: its trimmed text and a space,
/// or nothing when it has no text.
pub open spec fn segment_text(t: Seq<char>) -> Seq<char> {
    if trimmed(t).len() == 0 {
        Seq::empty()
    } else {
        trimmed(t).push(' ')
    }
}

proof fn lemma_plain_text_alt(ts: Seq<Seq<char>>)
    ensures
        plain_text(ts) == ts.map_values(|t: Seq<char>| segment_text(t)).flatten_alt(),
    decreases ts.len(),
{
    if ts.len() > 0 {
        lemma_plain_text_alt(ts.drop_last());
        assert(ts.drop_last().map_values(|t: Seq<char>| segment_text(t)) =~= ts.map_values(
            |t: Seq<char>| segment_text(t),
        ).drop_last());
        assert(plain_text(ts) =~= plain_text(ts.drop_last()) + segment_text(ts.last()));
    }
}

/// Every segment contributes its own trimmed text and a space, whatever the
/// segments around it hold, in the order of the segments; a segment with no
/// text contributes nothing.
pub proof fn law_plain_text_is_each_segment(ts: Seq<Seq<char>>)
    ensures
        plain_text(ts) == ts.map_values(|t: Seq<char>| segment_text(t)).flatten(),
{
    lemma_plain_text_alt(ts);
    ts.map_values(|t: Seq<char>| segment_text(t)).lemma_flatten_and_flatten_alt_are_equivalent();
}

/// Appending one segment appends its text to both renderings, whatever
/// came before: the plain text gains the trimmed text and a space, the
/// joined text gains a space (when it had text) and the trimmed text.
pub proof fn law_segment_appends(ts: Seq<Seq<char>>, x: Seq<char>)
    ensures
        trimmed(x).len() > 0 ==> plain_text(ts.push(x)) == plain_text(ts) + trimmed(x).push(' '),
        trimmed(x).len() == 0 ==> plain_text(ts.push(x)) == plain_text(ts),
        trimmed(x).len() > 0 ==> joined_text(ts.push(x)) == if joined_text(ts).len() == 0 {
            trimmed(x)
        } else {
            joined_text(ts).push(' ') + trimmed(x)
        },
        trimmed(x).len() == 0 ==> joined_text(ts.push(x)) == joined_text(ts),
{
    let s = ts.push(x);
    law_plain_text_is_each_segment(s);
    law_plain_text_is_each_segment(ts);
    let f = |t: Seq<char>| segment_text(t);
    let m = s.map_values(f);
    assert(m.drop_last() =~= ts.map_values(f));
    m.lemma_flatten_and_flatten_alt_are_equivalent();
    ts.map_values(f).lemma_flatten_and_flatten_alt_are_equivalent();
    assert(m.flatten_alt() == m.drop_last().flatten_alt() + m.last());
    assert(s.drop_last() =~= ts);
    if trimmed(x).len() == 0 {
        assert(plain_text(s) =~= plain_text(ts));
    }
    law_plain_text_is_joined_text(s);
    law_plain_text_is_joined_text(ts);
    if trimmed(x).len() > 0 && joined_text(ts).len() > 0 {
        assert(joined_text(s) =~= joined_text(ts).push(' ') + trimmed(x));
    }
}

} // verus!
