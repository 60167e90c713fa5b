//! The decisions that drive transcription with a Whisper model: how long
//! audio is cut into chunks, when the language is detected, when greedy
//! decoding stops, and which vocabulary entries name languages.
use vstd::prelude::*;
use crate::order::text_equal;

verus! {

/// Samples in one 30 second chunk at 16 kHz.
pub const CHUNK_SAMPLES: usize = 480000;

/// The most tokens one greedy decoding generates.
pub const MAX_DECODE_STEPS: usize = 448;

/// A span of samples, `start` inclusive, `end` exclusive.
#[derive(Debug, Clone, Copy, PartialEq, Eq, Structural)]
pub struct ChunkSpan {
    pub start: usize,
    pub end: usize,
}

/// The chunks a recording of `total` samples is transcribed in: the whole
/// recording when it fits one chunk, otherwise consecutive chunks of
/// `CHUNK_SAMPLES`, the last one shorter when the length is not a multiple.
pub open spec fn chunk_plan(total: nat) -> Seq<(nat, nat)> {
    if total <= CHUNK_SAMPLES {
        seq![(0nat, total)]
    } else {
        Seq::new(
            ((total + CHUNK_SAMPLES - 1) / CHUNK_SAMPLES as int) as nat,
            |i: int|
                (
                    (i * CHUNK_SAMPLES) as nat,
                    if i * CHUNK_SAMPLES + CHUNK_SAMPLES <= total {
                        (i * CHUNK_SAMPLES + CHUNK_SAMPLES) as nat
                    } else {
                        total
                    },
                ),
        )
    }
}

pub open spec fn spans_view(spans: Seq<ChunkSpan>) -> Seq<(nat, nat)> {
    spans.map_values(|c: ChunkSpan| (c.start as nat, c.end as nat))
}

proof fn lemma_chunk_start_in_range(idx: int, total: int)
    requires
        0 <= idx < (total + CHUNK_SAMPLES - 1) / CHUNK_SAMPLES as int,
        total > 0,
    ensures
        idx * CHUNK_SAMPLES < total,
{
    assert(idx * 480000 < total) by (nonlinear_arith)
        requires
            0 <= idx < (total + 480000 - 1) / 480000,
            total > 0,
    ;
}

/// The chunks to transcribe a recording of `total` samples in.
pub fn plan_chunks(total: usize) -> (r: Vec<ChunkSpan>)
    ensures
        spans_view(r@) == chunk_plan(total as nat),
{
    let mut r: Vec<ChunkSpan> = Vec::new();
    if total <= CHUNK_SAMPLES {
        r.push(ChunkSpan { start: 0, end: total });
        assert(spans_view(r@) =~= chunk_plan(total as nat));
        return r;
    }
    let count = total / CHUNK_SAMPLES + if total % CHUNK_SAMPLES != 0 {
        1
    } else {
        0
    };
    assert(count == (total + CHUNK_SAMPLES - 1) / CHUNK_SAMPLES as int);
    let mut idx: usize = 0;
    let mut start: usize = 0;
    while idx < count
        invariant
            total > CHUNK_SAMPLES,
            count == (total + CHUNK_SAMPLES - 1) / CHUNK_SAMPLES as int,
            idx <= count,
            idx < count ==> start == idx * CHUNK_SAMPLES,
            r@.len() == idx,
            forall|j: int| 0 <= j < idx ==> #[trigger] spans_view(r@)[j] == chunk_plan(total as nat)[j],
        decreases count - idx,
    {
        proof {
            lemma_chunk_start_in_range(idx as int, total as int);
        }
        let end = if total - start <= CHUNK_SAMPLES {
            total
        } else {
            start + CHUNK_SAMPLES
        };
        let ghost before = r@;
        r.push(ChunkSpan { start, end });
        assert forall|j: int| 0 <= j < idx + 1 implies #[trigger] spans_view(r@)[j] == chunk_plan(
            total as nat,
        )[j] by {
            if j < idx {
                assert(r@[j] == before[j]);
                assert(spans_view(before)[j] == chunk_plan(total as nat)[j]);
            }
        }
        idx = idx + 1;
        if idx < count {
            proof {
                lemma_chunk_start_in_range(idx as int, total as int);
            }
            start = start + CHUNK_SAMPLES;
        }
    }
    assert(spans_view(r@) =~= chunk_plan(total as nat));
    r
}

proof fn lemma_chunk_count(total: int)
    requires
        total > CHUNK_SAMPLES,
    ensures
        ((total + CHUNK_SAMPLES - 1) / CHUNK_SAMPLES as int) * CHUNK_SAMPLES >= total,
        ((total + CHUNK_SAMPLES - 1) / CHUNK_SAMPLES as int) >= 2,
{
    assert(((total + 480000 - 1) / 480000) * 480000 >= total && (total + 480000 - 1) / 480000 >= 2)
        by (nonlinear_arith)
        requires
            total > 480000,
    ;
}

/// The chunks cover the recording from its first sample to its last, each
/// starting where the one before ended, none longer than `CHUNK_SAMPLES` and
/// none empty unless the recording is; there is one chunk exactly when the
/// recording fits in one.
pub proof fn law_chunks_cover_recording(total: nat)
    ensures
        chunk_plan(total).len() >= 1,
        chunk_plan(total)[0].0 == 0,
        chunk_plan(total).last().1 == total,
        forall|i: int|
            0 <= i < chunk_plan(total).len() - 1 ==> #[trigger] chunk_plan(total)[i].1 == chunk_plan(
                total,
            )[i + 1].0,
        forall|i: int|
            0 <= i < chunk_plan(total).len() ==> #[trigger] chunk_plan(total)[i].0 <= chunk_plan(
                total,
            )[i].1 <= chunk_plan(total)[i].0 + CHUNK_SAMPLES,
        forall|i: int|
            0 <= i < chunk_plan(total).len() && total > 0 ==> #[trigger] chunk_plan(total)[i].0
                < chunk_plan(total)[i].1,
        chunk_plan(total).len() == 1 <==> total <= CHUNK_SAMPLES,
{
    if total > CHUNK_SAMPLES {
        let n = (total + CHUNK_SAMPLES - 1) / CHUNK_SAMPLES as int;
        lemma_chunk_count(total as int);
        let p = chunk_plan(total);
        lemma_chunk_start_in_range(n - 1, total as int);
        assert(p.last().1 == total);
        assert forall|i: int| 0 <= i < p.len() - 1 implies #[trigger] p[i].1 == p[i + 1].0 by {
            lemma_chunk_start_in_range(i + 1, total as int);
        }
        assert forall|i: int| 0 <= i < p.len() implies #[trigger] p[i].0 <= p[i].1 <= p[i].0
            + CHUNK_SAMPLES by {
            lemma_chunk_start_in_range(i, total as int);
        }
        assert forall|i: int| 0 <= i < p.len() && total > 0 implies #[trigger] p[i].0 < p[i].1 by {
            lemma_chunk_start_in_range(i, total as int);
        }
    }
}

/// Whether the language must be detected before decoding chunk
/// `chunk_index`: on the first chunk, when no language was asked for or
/// `auto` was.
pub open spec fn detection_needed(requested: Option<Seq<char>>, chunk_index: nat) -> bool {
    chunk_index == 0 && (requested is None || requested == Some("auto"@))
}

/// Whether to detect the language before decoding chunk `chunk_index`,
/// given the language asked for (or detected so far).
pub fn needs_language_detection(requested: Option<&str>, chunk_index: usize) -> (r: bool)
    ensures
        r == detection_needed(crate::paths::opt_view(requested), chunk_index as nat),
{
    if chunk_index != 0 {
        return false;
    }
    match requested {
        None => true,
        Some(lang) => text_equal(lang, "auto"),
    }
}

/// The language a chunk is decoded in: the one given, English otherwise.
pub fn decoding_language<'a>(language: Option<&'a str>) -> (r: &'a str)
    ensures
        r@ == match language {
            Some(l) => l@,
            None => "en"@,
        },
{
    match language {
        Some(l) => l,
        None => "en",
    }
}

/// Greedy decoding of one chunk: the prompt grows by each sampled token
/// until the end-of-text token comes or `MAX_DECODE_STEPS` tokens were
/// sampled. The caller runs the model on [`GreedyDecoder::tokens`] and
/// hands back the token it sampled.
pub struct GreedyDecoder {
    tokens: Vec<u32>,
    generated: Vec<u32>,
    eot: u32,
    steps: usize,
    finished: bool,
    prompt: Ghost<Seq<u32>>,
}

impl GreedyDecoder {
    /// The prompt decoding started from.
    pub closed spec fn prompt_spec(&self) -> Seq<u32> {
        self.prompt@
    }

    /// The tokens the model is run on next.
    pub closed spec fn tokens_spec(&self) -> Seq<u32> {
        self.tokens@
    }

    /// The tokens generated so far.
    pub closed spec fn generated_spec(&self) -> Seq<u32> {
        self.generated@
    }

    /// The end-of-text token.
    pub closed spec fn eot_spec(&self) -> u32 {
        self.eot
    }

    /// How many tokens were sampled so far.
    pub closed spec fn steps_spec(&self) -> nat {
        self.steps as nat
    }

    /// Whether decoding is over.
    pub closed spec fn finished_spec(&self) -> bool {
        self.finished
    }

    /// The decoder's invariant.
    pub closed spec fn wf(&self) -> bool {
        &&& self.tokens@ == self.prompt@ + self.generated@
        &&& !self.generated@.contains(self.eot)
        &&& self.generated@.len() <= self.steps <= MAX_DECODE_STEPS
        &&& (self.steps == MAX_DECODE_STEPS ==> self.finished)
    }

    /// A decoder that starts from `prompt` and stops at `eot`.
    pub fn new(prompt: Vec<u32>, eot: u32) -> (d: GreedyDecoder)
        ensures
            d.wf(),
            d.prompt_spec() == prompt@,
            d.tokens_spec() == prompt@,
            d.generated_spec() == Seq::<u32>::empty(),
            d.eot_spec() == eot,
            d.steps_spec() == 0,
            !d.finished_spec(),
    {
        let ghost p = prompt@;
        let d = GreedyDecoder {
            tokens: prompt,
            generated: Vec::new(),
            eot,
            steps: 0,
            finished: false,
            prompt: Ghost(p),
        };
        assert(d.tokens@ =~= d.prompt@ + d.generated@);
        d
    }

    /// The tokens to run the model on.
    pub fn tokens(&self) -> (r: &Vec<u32>)
        ensures
            r@ == self.tokens_spec(),
    {
        &self.tokens
    }

    /// The tokens generated so far.
    pub fn generated(&self) -> (r: &Vec<u32>)
        ensures
            r@ == self.generated_spec(),
    {
        &self.generated
    }

    /// Whether no token was sampled yet, so that the model starts afresh.
    pub fn is_first_step(&self) -> (r: bool)
        ensures
            r == (self.steps_spec() == 0),
    {
        self.steps == 0
    }

    /// Whether decoding is over.
    pub fn is_finished(&self) -> (r: bool)
        ensures
            r == self.finished_spec(),
    {
        self.finished
    }

    /// Takes the token sampled from the model's output.
    pub fn advance(&mut self, next: u32)
        requires
            old(self).wf(),
            !old(self).finished_spec(),
        ensures
            final(self).wf(),
            final(self).prompt_spec() == old(self).prompt_spec(),
            final(self).eot_spec() == old(self).eot_spec(),
            final(self).steps_spec() == old(self).steps_spec() + 1,
            next == old(self).eot_spec() ==> {
                &&& final(self).finished_spec()
                &&& final(self).generated_spec() == old(self).generated_spec()
                &&& final(self).tokens_spec() == old(self).tokens_spec()
            },
            next != old(self).eot_spec() ==> {
                &&& final(self).finished_spec() == (old(self).steps_spec() + 1 == MAX_DECODE_STEPS)
                &&& final(self).generated_spec() == old(self).generated_spec().push(next)
                &&& final(self).tokens_spec() == old(self).tokens_spec().push(next)
            },
    {
        self.steps = self.steps + 1;
        if next == self.eot {
            self.finished = true;
        } else {
            self.generated.push(next);
            self.tokens.push(next);
            self.finished = self.steps == MAX_DECODE_STEPS;
            assert(self.tokens@ =~= self.prompt@ + self.generated@);
            assert forall|i: int| 0 <= i < self.generated@.len() implies self.generated@[i]
                != self.eot by {
                if i < self.generated@.len() - 1 {
                    assert(self.generated@[i] == old(self).generated@[i]);
                    assert(!old(self).generated@.contains(self.eot));
                }
            }
        }
    }

    /// Greedy decoding never generates the end-of-text token, generates at
    /// most `MAX_DECODE_STEPS` tokens, and always feeds the model the prompt
    /// followed by what it generated.
    pub proof fn law_greedy_output(&self)
        requires
            self.wf(),
        ensures
            !self.generated_spec().contains(self.eot_spec()),
            self.generated_spec().len() <= MAX_DECODE_STEPS,
            self.tokens_spec() == self.prompt_spec() + self.generated_spec(),
            self.steps_spec() == MAX_DECODE_STEPS ==> self.finished_spec(),
    {
    }
}

/// Bytes that `c` takes in UTF-8.
pub open spec fn utf8_len(c: char) -> nat {
    let u = c as int;
    if u < 0x80 {
        1
    } else if u < 0x800 {
        2
    } else if u < 0x10000 {
        3
    } else {
        4
    }
}

/// Bytes that `s` takes in UTF-8.
pub open spec fn utf8_len_of(s: Seq<char>) -> nat
    decreases s.len(),
{
    if s.len() == 0 {
        0
    } else {
        utf8_len_of(s.drop_last()) + utf8_len(s.last())
    }
}

/// Whether a vocabulary entry has the shape `<|...|>`.
pub open spec fn is_special_shape(t: Seq<char>) -> bool {
    &&& t.len() >= 2
    &&& t[0] == '<'
    &&& t[1] == '|'
    &&& t[t.len() - 2] == '|'
    &&& t[t.len() - 1] == '>'
}

/// The language a vocabulary entry names: `xx` for an entry `<|xx|>` whose
/// inner text takes two bytes in UTF-8.
pub open spec fn token_language(t: Seq<char>) -> Option<Seq<char>> {
    if is_special_shape(t) && utf8_len_of(t.subrange(2, t.len() - 2)) == 2 {
        Some(t.subrange(2, t.len() - 2))
    } else {
        None
    }
}

/// Bytes that `c` takes in UTF-8.
fn char_utf8_len(c: char) -> (n: usize)
    ensures
        n == utf8_len(c),
{
    let u = c as u32;
    if u < 0x80 {
        1
    } else if u < 0x800 {
        2
    } else if u < 0x10000 {
        3
    } else {
        4
    }
}

/// The language code a vocabulary entry stands for, if it is one.
///
/// The entry `<|>` is left out: slicing its inner text panics.
pub fn language_of_token(token: &str) -> (r: Option<String>)
    requires
        token@ != seq!['<', '|', '>'],
    ensures
        match r {
            Some(l) => token_language(token@) == Some(l@),
            None => token_language(token@) is None,
        },
{
    let n = token.unicode_len();
    if n < 4 {
        proof {
            if is_special_shape(token@) {
                assert(token@ =~= seq!['<', '|', '>']);
            }
        }
        return None;
    }
    if !(token.get_char(0) == '<' && token.get_char(1) == '|' && token.get_char(n - 2) == '|'
        && token.get_char(n - 1) == '>') {
        return None;
    }
    let inner = token.substring_char(2, n - 2);
    let m = n - 4;
    let mut bytes: usize = 0;
    let mut i: usize = 0;
    while i < m && bytes <= 2
        invariant
            i <= m,
            m == inner@.len(),
            bytes == utf8_len_of(inner@.subrange(0, i as int)),
        decreases m - i,
    {
        assert(inner@.subrange(0, i + 1).drop_last() =~= inner@.subrange(0, i as int));
        bytes = bytes + char_utf8_len(inner.get_char(i));
        i = i + 1;
    }
    proof {
        lemma_utf8_len_prefix(inner@, i as int);
        assert(inner@.subrange(0, m as int) =~= inner@);
    }
    if i == m && bytes == 2 {
        Some(String::from_str(inner))
    } else {
        None
    }
}

/// A prefix takes no more bytes than the whole.
proof fn lemma_utf8_len_prefix(s: Seq<char>, i: int)
    requires
        0 <= i <= s.len(),
    ensures
        utf8_len_of(s.subrange(0, i)) <= utf8_len_of(s),
    decreases s.len() - i,
{
    if i < s.len() {
        assert(s.subrange(0, i + 1).drop_last() =~= s.subrange(0, i));
        lemma_utf8_len_prefix(s, i + 1);
    } else {
        assert(s.subrange(0, i) =~= s);
    }
}

/// The multiplier and increment of the sampler's linear congruential step.
pub const LCG_MULTIPLIER: u64 = 6364136223846793005;

pub const LCG_INCREMENT: u64 = 1442695040888963407;

/// The top 24 bits of one linear congruential step from `seed`, modulo 2^64.
pub open spec fn lcg_value(seed: u64) -> nat {
    ((seed as nat * LCG_MULTIPLIER as nat + LCG_INCREMENT as nat) % 0x1_0000_0000_0000_0000) / 0x100_0000_0000
}

/// One step of the sampler's random number generator from `seed`, reduced
/// to the 24 bits that become a number in [0, 1).
pub fn lcg_draw(seed: u64) -> (r: u32)
    ensures
        r == lcg_value(seed),
        r < 0x100_0000,
{
    let state = seed.wrapping_mul(LCG_MULTIPLIER).wrapping_add(LCG_INCREMENT);
    let top = state >> 40u64;
    assert(top == state / 0x100_0000_0000 && top < 0x100_0000) by (bit_vector)
        requires
            top == state >> 40u64,
    ;
    proof {
        let a = seed as nat * LCG_MULTIPLIER as nat;
        vstd::arithmetic::div_mod::lemma_add_mod_noop(
            a as int,
            LCG_INCREMENT as int,
            0x1_0000_0000_0000_0000,
        );
    }
    top as u32
}

} // verus!
