//! Ordered dictation composition and long-silence compaction.
//!
//! A session keeps speech and exact user insertions in chronological order.
//! Each sealed speech segment is transcribed on its own while dictation goes
//! on, so the end of a session waits for the outstanding tail only.

use vstd::prelude::*;

use crate::stt::{Transcript, TranscriptView};
use crate::text::{
    CharClass, append_piece, chars_of, control, extend, is_control, joined, string_of, strip_ends,
    text_views, trimmed,
};

verus! {

/// A safety ceiling for an abandoned session, not a normal duration limit.
/// At 48 kHz mono 16-bit this is roughly 46 minutes of retained audio.
pub const MAX_SESSION_PCM_BYTES: usize = 256 * 1024 * 1024;

pub const BYTES_PER_SAMPLE: usize = 2;

pub const LONG_SILENCE_SECONDS: u32 = 5;

pub const GAP_EDGE_MILLISECONDS: u32 = 250;

/// Append a copy of `piece`.
pub fn append_bytes(out: &mut Vec<u8>, piece: &[u8])
    ensures
        final(out)@ == old(out)@ + piece@,
{
    out.extend_from_slice(piece);
    assert(out@ =~= old(out)@ + piece@);
}

/// Whether a pause is long: five seconds or more.
pub open spec fn long_gap(rate: nat, gap: Seq<u8>) -> bool {
    gap.len() > 0 && gap.len() / 2 >= rate * LONG_SILENCE_SECONDS as nat
}

/// Bytes of a long pause that stay at either edge: 250 milliseconds.
pub open spec fn edge_bytes(rate: nat) -> nat {
    (rate * GAP_EDGE_MILLISECONDS as nat / 1000) * 2
}

/// What stays of a pause: all of it, or the two edges of a long one. Before
/// the first speech only the trailing edge stays.
pub open spec fn kept_of_gap(rate: nat, gap: Seq<u8>, after_speech: bool) -> Seq<u8> {
    if !long_gap(rate, gap) {
        gap
    } else {
        let edge = edge_bytes(rate) as int;
        (if after_speech {
            gap.take(edge)
        } else {
            Seq::empty()
        }) + gap.skip(gap.len() - edge)
    }
}

/// The whole samples of a chunk: a trailing odd byte does not count.
pub open spec fn whole_samples(pcm: Seq<u8>) -> Seq<u8> {
    pcm.take(pcm.len() - pcm.len() % 2)
}

/// What a compactor has heard.
pub struct Heard {
    pub rate: nat,
    /// Audio up to the end of the last speech, long pauses compacted.
    pub spoken: Seq<u8>,
    /// The pause since then, in full.
    pub gap: Seq<u8>,
    pub has_speech: bool,
}

impl Heard {
    pub open spec fn start(rate: nat) -> Heard {
        Heard { rate, spoken: Seq::empty(), gap: Seq::empty(), has_speech: false }
    }

    /// The audio that would be sent if the capture ended here.
    pub open spec fn audio(self) -> Seq<u8> {
        self.spoken + kept_of_gap(self.rate, self.gap, self.has_speech)
    }

    /// After one more chunk.
    pub open spec fn after(self, pcm: Seq<u8>, signal_active: bool) -> Heard {
        let chunk = whole_samples(pcm);
        if chunk.len() == 0 {
            self
        } else if signal_active {
            Heard {
                rate: self.rate,
                spoken: self.audio() + chunk,
                gap: Seq::empty(),
                has_speech: true,
            }
        } else {
            Heard { gap: self.gap + chunk, ..self }
        }
    }
}

/// Keeps natural pauses exactly and compacts only proven five-second gaps.
pub struct SilenceCompactor {
    sample_rate: u32,
    retained: Vec<u8>,
    pending_silence: Vec<u8>,
    resume_preroll: Vec<u8>,
    silent_samples: usize,
    has_speech: bool,
    skipping: bool,
    heard: Ghost<Heard>,
}

impl View for SilenceCompactor {
    type V = Heard;

    closed spec fn view(&self) -> Heard {
        self.heard@
    }
}

proof fn edges_fit(rate: nat, gap: Seq<u8>)
    ensures
        long_gap(rate, gap) ==> 2 * edge_bytes(rate) <= gap.len(),
        edge_bytes(rate) <= rate,
{
    assert(rate * 250 / 1000 * 4 <= rate);
}

impl SilenceCompactor {
    /// The buffers hold what the view says of the audio heard so far.
    pub closed spec fn wf(&self) -> bool {
        let h = self.heard@;
        let edge = edge_bytes(h.rate) as int;
        &&& h.rate == self.sample_rate
        &&& h.has_speech == self.has_speech
        &&& self.skipping == long_gap(h.rate, h.gap)
        &&& self.silent_samples == if h.gap.len() / 2 <= usize::MAX {
            (h.gap.len() / 2) as int
        } else {
            usize::MAX as int
        }
        &&& h.gap.len() % 2 == 0
        &&& if self.skipping {
            &&& self.pending_silence@ == Seq::<u8>::empty()
            &&& self.resume_preroll@ == h.gap.skip(h.gap.len() - edge)
            &&& self.retained@ == h.spoken + (if h.has_speech {
                h.gap.take(edge)
            } else {
                Seq::empty()
            })
        } else {
            &&& self.pending_silence@ == h.gap
            &&& self.resume_preroll@ == Seq::<u8>::empty()
            &&& self.retained@ == h.spoken
        }
    }

    pub fn new(sample_rate: u32) -> (r: Self)
        ensures
            r.wf(),
            r@ == Heard::start(sample_rate as nat),
    {
        SilenceCompactor {
            sample_rate,
            retained: Vec::new(),
            pending_silence: Vec::new(),
            resume_preroll: Vec::new(),
            silent_samples: 0,
            has_speech: false,
            skipping: false,
            heard: Ghost(Heard::start(sample_rate as nat)),
        }
    }

    pub fn samples_for_seconds(&self, seconds: u32) -> (r: u64)
        requires
            self.wf(),
        ensures
            r == self@.rate * seconds,
    {
        assert(self.sample_rate * seconds <= u32::MAX * u32::MAX) by (nonlinear_arith)
            requires
                self.sample_rate <= u32::MAX,
                seconds <= u32::MAX,
        ;
        self.sample_rate as u64 * seconds as u64
    }

    /// Bytes of whole samples that last `milliseconds`.
    pub fn bytes_for_milliseconds(&self, milliseconds: u32) -> (r: usize)
        requires
            self.wf(),
            (self@.rate * milliseconds / 1000) * 2 <= usize::MAX,
        ensures
            r == (self@.rate * milliseconds as nat / 1000) * 2,
    {
        assert(self.sample_rate * milliseconds <= u32::MAX * u32::MAX) by (nonlinear_arith)
            requires
                self.sample_rate <= u32::MAX,
                milliseconds <= u32::MAX,
        ;
        let product: u64 = self.sample_rate as u64 * milliseconds as u64;
        (product / 1000) as usize * BYTES_PER_SAMPLE
    }

    /// Consume one capture chunk with the signal decision of the visualizer.
    /// Chunks stay byte for byte unless a long gap is proven.
    pub fn push_pcm(&mut self, pcm: &[u8], signal_active: bool)
        requires
            old(self).wf(),
        ensures
            final(self).wf(),
            final(self)@ == old(self)@.after(pcm@, signal_active),
    {
        let even_len: usize = pcm.len() - pcm.len() % BYTES_PER_SAMPLE;
        let chunk: &[u8] = vstd::slice::slice_subrange(pcm, 0, even_len);
        assert(chunk@ =~= whole_samples(pcm@));
        if chunk.len() == 0 {
            return;
        }
        let threshold: u64 = self.samples_for_seconds(LONG_SILENCE_SECONDS);
        proof {
            edges_fit(self@.rate, Seq::empty());
        }
        let edge: usize = self.bytes_for_milliseconds(GAP_EDGE_MILLISECONDS);
        let ghost before = self.heard@;
        let ghost after = before.after(pcm@, signal_active);
        proof {
            edges_fit(before.rate, before.gap);
            edges_fit(after.rate, after.gap);
        }
        if signal_active {
            if self.skipping {
                append_bytes(&mut self.retained, &self.resume_preroll);
            } else {
                append_bytes(&mut self.retained, &self.pending_silence);
            }
            assert(self.retained@ =~= before.audio());
            self.pending_silence.clear();
            self.resume_preroll.clear();
            append_bytes(&mut self.retained, chunk);
            self.silent_samples = 0;
            self.has_speech = true;
            self.skipping = false;
            self.heard = Ghost(after);
            return;
        }
        self.silent_samples = self.silent_samples.saturating_add(chunk.len() / BYTES_PER_SAMPLE);
        self.heard = Ghost(after);
        if self.skipping {
            self.push_preroll(chunk, edge, Ghost(before.gap));
            assert(self.retained@ =~= after.spoken + (if after.has_speech {
                after.gap.take(edge_bytes(after.rate) as int)
            } else {
                Seq::empty()
            }));
            return;
        }
        append_bytes(&mut self.pending_silence, chunk);
        let gap_len: usize = self.pending_silence.len();
        assert(self.pending_silence@ =~= after.gap);
        if self.silent_samples as u64 >= threshold {
            if self.has_speech {
                let prefix: &[u8] = vstd::slice::slice_subrange(&self.pending_silence, 0, edge);
                append_bytes(&mut self.retained, prefix);
                assert(prefix@ =~= after.gap.take(edge as int));
            }
            let suffix: &[u8] = vstd::slice::slice_subrange(
                &self.pending_silence,
                gap_len - edge,
                gap_len,
            );
            append_bytes(&mut self.resume_preroll, suffix);
            assert(self.resume_preroll@ =~= after.gap.skip(gap_len - edge));
            self.pending_silence.clear();
            self.skipping = true;
            assert(self.retained@ =~= after.spoken + (if after.has_speech {
                after.gap.take(edge as int)
            } else {
                Seq::empty()
            }));
            assert(self.pending_silence@ =~= Seq::empty());
        } else {
            assert(self.resume_preroll@ =~= Seq::empty());
            assert(self.retained@ =~= after.spoken);
        }
    }

    /// Keep the trailing `max_bytes` of a long gap as it grows by `pcm`.
    fn push_preroll(&mut self, pcm: &[u8], max_bytes: usize, gap: Ghost<Seq<u8>>)
        requires
            max_bytes <= gap@.len(),
            old(self).resume_preroll@ == gap@.skip(gap@.len() - max_bytes),
        ensures
            final(self).resume_preroll@ == (gap@ + pcm@).skip(
                gap@.len() + pcm@.len() - max_bytes,
            ),
            *final(self) == (SilenceCompactor {
                resume_preroll: final(self).resume_preroll,
                ..*old(self)
            }),
    {
        if max_bytes == 0 {
            assert((gap@ + pcm@).skip((gap@.len() + pcm@.len()) as int) =~= gap@.skip(
                gap@.len() as int,
            ));
            return;
        }
        append_bytes(&mut self.resume_preroll, pcm);
        if self.resume_preroll.len() > max_bytes {
            let discard: usize = self.resume_preroll.len() - max_bytes;
            self.resume_preroll = self.resume_preroll.split_off(discard);
        }
        assert(self.resume_preroll@ =~= (gap@ + pcm@).skip(gap@.len() + pcm@.len() - max_bytes));
    }

    /// Whether the current pause has been found long.
    pub fn silence_truncated(&self) -> (r: bool)
        requires
            self.wf(),
        ensures
            r == long_gap(self@.rate, self@.gap),
    {
        self.skipping
    }

    /// Bytes held, which is what the capture would send if it ended here.
    pub fn estimated_bytes(&self) -> (r: usize)
        requires
            self.wf(),
        ensures
            r == if self@.audio().len() <= usize::MAX {
                self@.audio().len() as int
            } else {
                usize::MAX as int
            },
    {
        proof {
            edges_fit(self@.rate, self@.gap);
        }
        self.retained.len().saturating_add(self.pending_silence.len()).saturating_add(
            self.resume_preroll.len(),
        )
    }

    /// The audio to send, or `None` when no speech was heard.
    pub fn finish(self) -> (r: Option<Vec<u8>>)
        requires
            self.wf(),
        ensures
            match r {
                Some(audio) => self@.has_speech && audio@ == self@.audio(),
                None => !self@.has_speech,
            },
    {
        if !self.has_speech {
            return None;
        }
        let mut out: Vec<u8> = self.retained;
        if self.skipping {
            append_bytes(&mut out, &self.resume_preroll);
        } else {
            append_bytes(&mut out, &self.pending_silence);
        }
        proof {
            edges_fit(self@.rate, self@.gap);
        }
        assert(out@ =~= self@.audio());
        Some(out)
    }
}

/// What a compactor has heard after the given chunks.
pub open spec fn heard_after(rate: nat, chunks: Seq<(Seq<u8>, bool)>) -> Heard
    decreases chunks.len(),
{
    if chunks.len() == 0 {
        Heard::start(rate)
    } else {
        heard_after(rate, chunks.drop_last()).after(chunks.last().0, chunks.last().1)
    }
}

/// The whole samples of all chunks, end to end.
pub open spec fn recording(chunks: Seq<(Seq<u8>, bool)>) -> Seq<u8>
    decreases chunks.len(),
{
    if chunks.len() == 0 {
        Seq::empty()
    } else {
        recording(chunks.drop_last()) + whole_samples(chunks.last().0)
    }
}

/// A capture without a long gap is sent byte for byte.
pub proof fn natural_pauses_are_kept(rate: nat, chunks: Seq<(Seq<u8>, bool)>)
    requires
        forall|n: int|
            0 <= n <= chunks.len() ==> !long_gap(
                rate,
                (#[trigger] heard_after(rate, chunks.take(n))).gap,
            ),
    ensures
        heard_after(rate, chunks).audio() == recording(chunks),
    decreases chunks.len(),
{
    let h = heard_after(rate, chunks);
    assert(chunks.take(chunks.len() as int) =~= chunks);
    assert(!long_gap(rate, h.gap));
    rate_is_kept(rate, chunks);
    if chunks.len() == 0 {
        assert(h.audio() =~= recording(chunks));
    } else {
        let rest = chunks.drop_last();
        let (pcm, active) = chunks.last();
        assert forall|n: int| 0 <= n <= rest.len() implies !long_gap(
            rate,
            (#[trigger] heard_after(rate, rest.take(n))).gap,
        ) by {
            assert(rest.take(n) =~= chunks.take(n));
            assert(!long_gap(rate, heard_after(rate, chunks.take(n)).gap));
        }
        natural_pauses_are_kept(rate, rest);
        assert(h.audio() =~= recording(rest) + whole_samples(pcm));
    }
}

proof fn rate_is_kept(rate: nat, chunks: Seq<(Seq<u8>, bool)>)
    ensures
        heard_after(rate, chunks).rate == rate,
    decreases chunks.len(),
{
    if chunks.len() > 0 {
        rate_is_kept(rate, chunks.drop_last());
    }
}

/// A long gap after speech shrinks to its first and its last 250
/// milliseconds; before the first speech only the last 250 stay.
pub proof fn long_gaps_keep_their_edges(rate: nat, gap: Seq<u8>)
    requires
        long_gap(rate, gap),
    ensures
        2 * edge_bytes(rate) <= gap.len(),
        kept_of_gap(rate, gap, true).len() == 2 * edge_bytes(rate),
        kept_of_gap(rate, gap, true).take(edge_bytes(rate) as int) == gap.take(
            edge_bytes(rate) as int,
        ),
        kept_of_gap(rate, gap, true).skip(edge_bytes(rate) as int) == gap.skip(
            gap.len() - edge_bytes(rate),
        ),
        kept_of_gap(rate, gap, false) == gap.skip(gap.len() - edge_bytes(rate)),
{
    edges_fit(rate, gap);
    let edge = edge_bytes(rate) as int;
    assert(kept_of_gap(rate, gap, true).take(edge) =~= gap.take(edge));
    assert(kept_of_gap(rate, gap, true).skip(edge) =~= gap.skip(gap.len() - edge));
    assert(kept_of_gap(rate, gap, false) =~= gap.skip(gap.len() - edge));
}

/// Speech is sent in full, right behind everything sent before it, and what
/// was sent up to the last speech never changes afterwards.
pub proof fn speech_is_never_lost(h: Heard, pcm: Seq<u8>, signal_active: bool)
    ensures
        signal_active ==> h.after(pcm, signal_active).audio() == h.audio() + whole_samples(pcm),
        h.spoken.is_prefix_of(h.after(pcm, signal_active).spoken),
        h.has_speech ==> h.after(pcm, signal_active).has_speech,
{
    let after = h.after(pcm, signal_active);
    if signal_active {
        assert(after.audio() =~= h.audio() + whole_samples(pcm));
    }
    assert(h.spoken =~= after.spoken.take(h.spoken.len() as int));
}

/// A capture holds speech exactly when one of its chunks does, so an
/// all-silent capture sends nothing.
pub proof fn only_active_chunks_are_speech(rate: nat, chunks: Seq<(Seq<u8>, bool)>)
    ensures
        heard_after(rate, chunks).has_speech <==> exists|i: int|
            0 <= i < chunks.len() && (#[trigger] chunks[i]).1 && whole_samples(chunks[i].0).len()
                > 0,
    decreases chunks.len(),
{
    if chunks.len() > 0 {
        let rest = chunks.drop_last();
        only_active_chunks_are_speech(rate, rest);
        if heard_after(rate, rest).has_speech {
            let i = choose|i: int|
                0 <= i < rest.len() && (#[trigger] rest[i]).1 && whole_samples(rest[i].0).len() > 0;
            assert(chunks[i] == rest[i]);
        }
        if heard_after(rate, chunks).has_speech && !heard_after(rate, rest).has_speech {
            assert(chunks[chunks.len() - 1].1);
        }
        if exists|i: int|
            0 <= i < chunks.len() && (#[trigger] chunks[i]).1 && whole_samples(chunks[i].0).len()
                > 0 {
            let i = choose|i: int|
                0 <= i < chunks.len() && (#[trigger] chunks[i]).1 && whole_samples(
                    chunks[i].0,
                ).len() > 0;
            if i < rest.len() {
                assert(rest[i] == chunks[i]);
            }
        }
    }
}

/// Compaction only ever takes audio out.
pub proof fn compaction_never_adds(rate: nat, chunks: Seq<(Seq<u8>, bool)>)
    ensures
        heard_after(rate, chunks).audio().len() <= recording(chunks).len(),
        heard_after(rate, chunks).spoken.len() + heard_after(rate, chunks).gap.len() <= recording(
            chunks,
        ).len(),
    decreases chunks.len(),
{
    let h = heard_after(rate, chunks);
    rate_is_kept(rate, chunks);
    edges_fit(rate, h.gap);
    if chunks.len() > 0 {
        compaction_never_adds(rate, chunks.drop_last());
    }
}

/// One unit of typing: what a single backspace takes back.
#[derive(Debug, PartialEq)]
pub enum TypingAtom {
    Character(char),
    Paste(String),
    LineBreak,
}

/// What a `TypingAtom` holds.
pub enum AtomView {
    Character(char),
    Paste(Seq<char>),
    LineBreak,
}

impl View for TypingAtom {
    type V = AtomView;

    open spec fn view(&self) -> AtomView {
        match *self {
            TypingAtom::Character(c) => AtomView::Character(c),
            TypingAtom::Paste(text) => AtomView::Paste(text@),
            TypingAtom::LineBreak => AtomView::LineBreak,
        }
    }
}

impl AtomView {
    /// The text the atom stands for.
    pub open spec fn actual(self) -> Seq<char> {
        match self {
            AtomView::Character(c) => seq![c],
            AtomView::Paste(text) => text,
            AtomView::LineBreak => seq!['\n'],
        }
    }

    /// What the preview shows for the atom: pasted text stays private.
    pub open spec fn shown(self) -> Seq<char> {
        match self {
            AtomView::Character(c) => seq![c],
            AtomView::Paste(_) => "[pasted]"@,
            AtomView::LineBreak => seq!['\u{21b5}'],
        }
    }
}

/// The characters of `text` as atoms, control characters left out.
pub open spec fn typed_atoms(text: Seq<char>) -> Seq<AtomView>
    decreases text.len(),
{
    if text.len() == 0 {
        Seq::empty()
    } else if control(text.last()) {
        typed_atoms(text.drop_last())
    } else {
        typed_atoms(text.drop_last()).push(AtomView::Character(text.last()))
    }
}

proof fn typed_atoms_push(text: Seq<char>, c: char)
    ensures
        control(c) ==> typed_atoms(text.push(c)) == typed_atoms(text),
        !control(c) ==> typed_atoms(text.push(c)) == typed_atoms(text).push(
            AtomView::Character(c),
        ),
{
    assert(text.push(c).drop_last() =~= text);
}

/// The text that the atoms stand for.
pub open spec fn actual_text(atoms: Seq<AtomView>) -> Seq<char>
    decreases atoms.len(),
{
    if atoms.len() == 0 {
        Seq::empty()
    } else {
        actual_text(atoms.drop_last()) + atoms.last().actual()
    }
}

/// What the preview would show without a limit.
pub open spec fn full_preview(atoms: Seq<AtomView>) -> Seq<char>
    decreases atoms.len(),
{
    if atoms.len() == 0 {
        Seq::empty()
    } else {
        full_preview(atoms.drop_last()) + atoms.last().shown()
    }
}

/// The trailing atoms that fit into `max` characters, as the preview shows
/// them.
pub open spec fn preview_of(atoms: Seq<AtomView>, max: int) -> Seq<char>
    decreases atoms.len(),
{
    if atoms.len() == 0 || atoms.last().shown().len() > max {
        Seq::empty()
    } else {
        preview_of(atoms.drop_last(), max - atoms.last().shown().len()) + atoms.last().shown()
    }
}

pub open spec fn atom_views(atoms: Seq<TypingAtom>) -> Seq<AtomView> {
    atoms.map_values(|a: TypingAtom| a@)
}

proof fn atom_views_push(atoms: Seq<TypingAtom>, atom: TypingAtom)
    ensures
        atom_views(atoms.push(atom)) == atom_views(atoms).push(atom@),
{
    assert(atom_views(atoms.push(atom)) =~= atom_views(atoms).push(atom@));
}

fn atoms_of(chars: &[char]) -> (r: Vec<TypingAtom>)
    ensures
        atom_views(r@) == typed_atoms(chars@),
{
    let mut out: Vec<TypingAtom> = Vec::new();
    let mut i: usize = 0;
    assert(atom_views(out@) =~= typed_atoms(chars@.take(0)));
    while i < chars.len()
        invariant
            i <= chars@.len(),
            atom_views(out@) == typed_atoms(chars@.take(i as int)),
        decreases chars@.len() - i,
    {
        let c: char = chars[i];
        proof {
            typed_atoms_push(chars@.take(i as int), c);
            atom_views_push(out@, TypingAtom::Character(c));
            assert(chars@.take(i as int).push(c) =~= chars@.take(i + 1));
        }
        if !is_control(c) {
            out.push(TypingAtom::Character(c));
        }
        i += 1;
    }
    assert(chars@.take(i as int) =~= chars@);
    out
}

/// Text being typed, atom by atom.
#[derive(Debug, PartialEq)]
pub struct TypingBuffer {
    atoms: Vec<TypingAtom>,
}

impl View for TypingBuffer {
    type V = Seq<AtomView>;

    closed spec fn view(&self) -> Seq<AtomView> {
        atom_views(self.atoms@)
    }
}

impl Default for TypingBuffer {
    fn default() -> (r: Self)
        ensures
            r@ == Seq::<AtomView>::empty(),
    {
        let r = TypingBuffer { atoms: Vec::new() };
        assert(r@ =~= Seq::<AtomView>::empty());
        r
    }
}

impl TypingBuffer {
    fn push_atom(&mut self, atom: TypingAtom)
        ensures
            final(self)@ == old(self)@.push(atom@),
    {
        proof {
            atom_views_push(self.atoms@, atom);
        }
        self.atoms.push(atom);
    }

    /// Type `text`, control characters left out.
    pub fn push_text(&mut self, text: &str)
        ensures
            final(self)@ == old(self)@ + typed_atoms(text@),
    {
        let ghost start = self.atoms@;
        let mut typed: Vec<TypingAtom> = atoms_of(&chars_of(text));
        let ghost added = typed@;
        self.atoms.append(&mut typed);
        assert(self.atoms@ == start + added);
        assert(atom_views(start + added) =~= atom_views(start) + atom_views(added));
    }

    /// Paste `text` as one atom.
    pub fn push_paste(&mut self, text: String)
        ensures
            final(self)@ == if text@.len() == 0 {
                old(self)@
            } else {
                old(self)@.push(AtomView::Paste(text@))
            },
    {
        if chars_of(&text).len() > 0 {
            self.push_atom(TypingAtom::Paste(text));
        }
    }

    pub fn push_line_break(&mut self)
        ensures
            final(self)@ == old(self)@.push(AtomView::LineBreak),
    {
        self.push_atom(TypingAtom::LineBreak);
    }

    /// Take the last atom back; false when there is none.
    pub fn backspace(&mut self) -> (r: bool)
        ensures
            r == (old(self)@.len() > 0),
            final(self)@ == if old(self)@.len() > 0 {
                old(self)@.drop_last()
            } else {
                old(self)@
            },
    {
        let taken: bool = self.atoms.pop().is_some();
        assert(self@ =~= if old(self)@.len() > 0 {
            old(self)@.drop_last()
        } else {
            old(self)@
        });
        taken
    }

    pub fn is_empty(&self) -> (r: bool)
        ensures
            r == (self@.len() == 0),
    {
        self.atoms.len() == 0
    }

    /// The exact text typed, which empties the buffer.
    pub fn take_actual(&mut self) -> (r: String)
        ensures
            r@ == actual_text(old(self)@),
            final(self)@ == Seq::<AtomView>::empty(),
    {
        let mut actual: Vec<char> = Vec::new();
        let mut i: usize = 0;
        while i < self.atoms.len()
            invariant
                i <= self.atoms@.len(),
                *self == *old(self),
                actual@ == actual_text(self@.take(i as int)),
            decreases self.atoms@.len() - i,
        {
            assert(self@.take(i + 1).drop_last() =~= self@.take(i as int));
            let ghost before = actual@;
            match &self.atoms[i] {
                TypingAtom::Character(c) => actual.push(*c),
                TypingAtom::Paste(text) => extend(&mut actual, &chars_of(text)),
                TypingAtom::LineBreak => actual.push('\n'),
            }
            assert(actual@ =~= before + self@[i as int].actual());
            i += 1;
        }
        assert(self@.take(i as int) =~= self@);
        self.atoms.clear();
        assert(self@ =~= Seq::<AtomView>::empty());
        string_of(&actual)
    }

    /// The trailing part of the typing that fits into `max_characters`, with
    /// markers for pasted text and line breaks.
    pub fn preview_tail(&self, max_characters: usize) -> (r: String)
        ensures
            r@ == preview_of(self@, max_characters as int),
    {
        let marker: Vec<char> = chars_of("[pasted]");
        let mut room: usize = max_characters;
        let mut start: usize = self.atoms.len();
        let mut full: bool = false;
        assert(self@.take(start as int) =~= self@);
        assert(full_preview(self@.skip(start as int)) =~= Seq::<char>::empty());
        assert(preview_of(self@, max_characters as int) + Seq::<char>::empty() =~= preview_of(
            self@,
            max_characters as int,
        ));
        while start > 0 && !full
            invariant
                start <= self.atoms@.len(),
                marker@ == "[pasted]"@,
                preview_of(self@, max_characters as int) == preview_of(
                    self@.take(start as int),
                    room as int,
                ) + full_preview(self@.skip(start as int)),
                full ==> start > 0 && self@[start - 1].shown().len() > room,
            decreases start, if full { 0int } else { 1int },
        {
            let width: usize = match &self.atoms[start - 1] {
                TypingAtom::Character(_) => 1,
                TypingAtom::Paste(_) => marker.len(),
                TypingAtom::LineBreak => 1,
            };
            assert(width == self@[start - 1].shown().len());
            assert(self@.take(start as int).last() == self@[start - 1]);
            if width > room {
                full = true;
            } else {
                assert(self@.take(start as int).drop_last() =~= self@.take(start - 1));
                proof {
                    full_preview_first(self@.skip(start - 1));
                    assert(self@.skip(start - 1).drop_first() =~= self@.skip(start as int));
                }
                assert(preview_of(self@.take(start as int), room as int) + full_preview(
                    self@.skip(start as int),
                ) =~= preview_of(self@.take(start - 1), room - width) + full_preview(
                    self@.skip(start - 1),
                ));
                room -= width;
                start -= 1;
            }
        }
        let ghost tail = self@.skip(start as int);
        assert(preview_of(self@, max_characters as int) =~= full_preview(tail));
        let mut out: Vec<char> = Vec::new();
        let mut i: usize = start;
        while i < self.atoms.len()
            invariant
                start <= i <= self.atoms@.len(),
                marker@ == "[pasted]"@,
                tail == self@.skip(start as int),
                out@ == full_preview(tail.take(i - start)),
            decreases self.atoms@.len() - i,
        {
            assert(tail.take(i + 1 - start).drop_last() =~= tail.take(i - start));
            assert(tail[i - start] == self@[i as int]);
            let ghost before = out@;
            match &self.atoms[i] {
                TypingAtom::Character(c) => out.push(*c),
                TypingAtom::Paste(_) => extend(&mut out, &marker),
                TypingAtom::LineBreak => out.push('\u{21b5}'),
            }
            assert(out@ =~= before + self@[i as int].shown());
            i += 1;
        }
        assert(tail.take(i - start) =~= tail);
        string_of(&out)
    }
}

proof fn full_preview_first(atoms: Seq<AtomView>)
    requires
        atoms.len() > 0,
    ensures
        full_preview(atoms) == atoms[0].shown() + full_preview(atoms.drop_first()),
    decreases atoms.len(),
{
    if atoms.len() == 1 {
        assert(atoms.drop_last() =~= Seq::empty());
        assert(atoms.drop_first() =~= Seq::empty());
        assert(full_preview(atoms) =~= atoms[0].shown() + full_preview(atoms.drop_first()));
    } else {
        full_preview_first(atoms.drop_last());
        assert(atoms.drop_last().drop_first() =~= atoms.drop_first().drop_last());
        assert(full_preview(atoms) =~= atoms[0].shown() + full_preview(atoms.drop_first()));
    }
}

/// The preview fits its limit and is the end of what an unlimited preview
/// would show.
pub proof fn preview_is_a_trailing_window(atoms: Seq<AtomView>, max: nat)
    ensures
        preview_of(atoms, max as int).len() <= max,
        preview_of(atoms, max as int).is_suffix_of(full_preview(atoms)),
    decreases atoms.len(),
{
    let p = preview_of(atoms, max as int);
    let f = full_preview(atoms);
    if atoms.len() > 0 && atoms.last().shown().len() <= max {
        preview_is_a_trailing_window(
            atoms.drop_last(),
            (max - atoms.last().shown().len()) as nat,
        );
        let q = preview_of(atoms.drop_last(), max - atoms.last().shown().len());
        let g = full_preview(atoms.drop_last());
        assert(q =~= g.subrange(g.len() - q.len(), g.len() as int));
        assert(p =~= f.subrange(f.len() - p.len(), f.len() as int));
    } else {
        assert(p =~= f.subrange(f.len() - p.len(), f.len() as int));
    }
}

/// The preview of two buffers that differ only in what was pasted is the
/// same: it never shows pasted text.
pub proof fn pastes_stay_private(a: Seq<AtomView>, b: Seq<AtomView>, max: int)
    requires
        a.len() == b.len(),
        forall|i: int|
            0 <= i < a.len() ==> (#[trigger] a[i] == b[i] || (a[i] is Paste && b[i] is Paste)),
    ensures
        preview_of(a, max) == preview_of(b, max),
    decreases a.len(),
{
    if a.len() > 0 {
        assert(a[a.len() - 1] == a.last());
        assert(a.last().shown() == b.last().shown());
        assert forall|i: int| 0 <= i < a.drop_last().len() implies (#[trigger] a.drop_last()[i]
            == b.drop_last()[i] || (a.drop_last()[i] is Paste && b.drop_last()[i] is Paste)) by {
            assert(a[i] == a.drop_last()[i]);
        }
        pastes_stay_private(a.drop_last(), b.drop_last(), max - a.last().shown().len());
    }
}

/// One step of a session in chronological order.
#[derive(Debug, PartialEq)]
pub enum CompositionEntry {
    Speech,
    Insertion(String),
}

/// What a `CompositionEntry` holds.
pub enum EntryView {
    Speech,
    Insertion(Seq<char>),
}

impl View for CompositionEntry {
    type V = EntryView;

    open spec fn view(&self) -> EntryView {
        match *self {
            CompositionEntry::Speech => EntryView::Speech,
            CompositionEntry::Insertion(text) => EntryView::Insertion(text@),
        }
    }
}

pub open spec fn entry_views(entries: Seq<CompositionEntry>) -> Seq<EntryView> {
    entries.map_values(|e: CompositionEntry| e@)
}

proof fn entry_views_push(entries: Seq<CompositionEntry>, entry: CompositionEntry)
    ensures
        entry_views(entries.push(entry)) == entry_views(entries).push(entry@),
{
    assert(entry_views(entries.push(entry)) =~= entry_views(entries).push(entry@));
}

pub open spec fn slot_view(slot: Option<Transcript>) -> Option<TranscriptView> {
    match slot {
        Some(t) => Some(t@),
        None => None,
    }
}

pub open spec fn slot_views(slots: Seq<Option<Transcript>>) -> Seq<Option<TranscriptView>> {
    slots.map_values(|s: Option<Transcript>| slot_view(s))
}

/// How many of the entries are speech.
pub open spec fn speech_entries(entries: Seq<EntryView>) -> nat
    decreases entries.len(),
{
    if entries.len() == 0 {
        0
    } else {
        speech_entries(entries.drop_last()) + if entries.last() is Speech {
            1nat
        } else {
            0nat
        }
    }
}

/// How many slots have no transcript yet.
pub open spec fn pending_slots(slots: Seq<Option<TranscriptView>>) -> nat
    decreases slots.len(),
{
    if slots.len() == 0 {
        0
    } else {
        pending_slots(slots.drop_last()) + if slots.last() is None {
            1nat
        } else {
            0nat
        }
    }
}

/// The entries joined in order, the `k`-th speech entry as the trimmed `k`-th
/// text of `speech`. A speech entry without a text adds nothing.
pub open spec fn assembled(entries: Seq<EntryView>, speech: Seq<Seq<char>>) -> Seq<char>
    decreases entries.len(),
{
    if entries.len() == 0 {
        Seq::empty()
    } else {
        let before = assembled(entries.drop_last(), speech);
        match entries.last() {
            EntryView::Speech => {
                let k = speech_entries(entries.drop_last()) as int;
                if k < speech.len() {
                    joined(before, trimmed(speech[k]))
                } else {
                    before
                }
            },
            EntryView::Insertion(text) => joined(before, text),
        }
    }
}

/// What a session holds.
pub struct SessionView {
    pub target: isize,
    pub rate: nat,
    pub audio: Seq<u8>,
    pub entries: Seq<EntryView>,
    pub typing: Seq<AtomView>,
    /// One slot per speech entry, filled once its transcript is there.
    pub transcripts: Seq<Option<TranscriptView>>,
}

/// A dictation session: speech and insertions in the order they came.
pub struct CompositionSession {
    target_hwnd: isize,
    sample_rate: u32,
    audio_pcm: Vec<u8>,
    entries: Vec<CompositionEntry>,
    typing: TypingBuffer,
    insertion_count: usize,
    speech_count: usize,
    speech_transcripts: Vec<Option<Transcript>>,
}

impl View for CompositionSession {
    type V = SessionView;

    closed spec fn view(&self) -> SessionView {
        SessionView {
            target: self.target_hwnd,
            rate: self.sample_rate as nat,
            audio: self.audio_pcm@,
            entries: entry_views(self.entries@),
            typing: self.typing@,
            transcripts: slot_views(self.speech_transcripts@),
        }
    }
}

impl CompositionSession {
    /// Every speech entry has a slot, and the counters count.
    pub closed spec fn wf(&self) -> bool {
        &&& self.speech_count == self@.transcripts.len()
        &&& self.speech_count == speech_entries(self@.entries)
        &&& self.insertion_count == self@.entries.len() - speech_entries(self@.entries)
    }

    pub fn new(target_hwnd: isize, sample_rate: u32) -> (r: Self)
        ensures
            r.wf(),
            r@ == (SessionView {
                target: target_hwnd,
                rate: sample_rate as nat,
                audio: Seq::empty(),
                entries: Seq::empty(),
                typing: Seq::empty(),
                transcripts: Seq::empty(),
            }),
    {
        let r = CompositionSession {
            target_hwnd,
            sample_rate,
            audio_pcm: Vec::new(),
            entries: Vec::new(),
            typing: TypingBuffer::default(),
            insertion_count: 0,
            speech_count: 0,
            speech_transcripts: Vec::new(),
        };
        assert(r@.entries =~= Seq::empty());
        assert(r@.transcripts =~= Seq::empty());
        r
    }

    /// Record one sealed speech segment and reserve its transcript slot.
    /// Returns the index that the transcription fills in.
    pub fn push_speech(&mut self, pcm: Vec<u8>) -> (r: Option<usize>)
        requires
            old(self).wf(),
        ensures
            final(self).wf(),
            match r {
                Some(index) => {
                    &&& pcm@.len() > 0
                    &&& old(self)@.rate > 0
                    &&& index == old(self)@.transcripts.len()
                    &&& final(self)@ == SessionView {
                        audio: old(self)@.audio + pcm@,
                        entries: old(self)@.entries.push(EntryView::Speech),
                        transcripts: old(self)@.transcripts.push(None),
                        ..old(self)@
                    }
                },
                None => (pcm@.len() == 0 || old(self)@.rate == 0) && final(self)@ == old(self)@,
            },
    {
        if pcm.len() == 0 || self.sample_rate == 0 {
            return None;
        }
        let ghost before = self@;
        append_bytes(&mut self.audio_pcm, &pcm);
        proof {
            entry_views_push(self.entries@, CompositionEntry::Speech);
        }
        self.entries.push(CompositionEntry::Speech);
        self.speech_transcripts.push(None);
        let index: usize = self.speech_count;
        self.speech_count = self.speech_transcripts.len();
        assert(self@.transcripts =~= before.transcripts.push(None));
        assert(self@.entries.drop_last() =~= before.entries);
        Some(index)
    }

    pub fn target_hwnd(&self) -> (r: isize)
        ensures
            r == self@.target,
    {
        self.target_hwnd
    }

    pub fn sample_rate(&self) -> (r: u32)
        ensures
            r == self@.rate,
    {
        self.sample_rate
    }

    pub fn speech_count(&self) -> (r: usize)
        requires
            self.wf(),
        ensures
            r == speech_entries(self@.entries),
            r == self@.transcripts.len(),
    {
        self.speech_count
    }

    /// Store the transcript of one sealed segment; false when the index does
    /// not belong to this session.
    pub fn set_speech_transcript(&mut self, index: usize, transcript: Transcript) -> (r: bool)
        requires
            old(self).wf(),
        ensures
            final(self).wf(),
            r == (index < old(self)@.transcripts.len()),
            final(self)@ == if r {
                SessionView {
                    transcripts: old(self)@.transcripts.update(
                        index as int,
                        Some(transcript@),
                    ),
                    ..old(self)@
                }
            } else {
                old(self)@
            },
    {
        if index < self.speech_transcripts.len() {
            let ghost before = self@;
            self.speech_transcripts.set(index, Some(transcript));
            assert(self@.transcripts =~= before.transcripts.update(
                index as int,
                Some(transcript@),
            ));
            return true;
        }
        false
    }

    pub fn pending_transcript_count(&self) -> (r: usize)
        ensures
            r == pending_slots(self@.transcripts),
    {
        let slots: &Vec<Option<Transcript>> = &self.speech_transcripts;
        let ghost views = slot_views(slots@);
        let mut count: usize = 0;
        let mut i: usize = 0;
        while i < slots.len()
            invariant
                count <= i <= slots@.len(),
                views == slot_views(slots@),
                count == pending_slots(views.take(i as int)),
            decreases slots@.len() - i,
        {
            assert(views.take(i + 1).drop_last() =~= views.take(i as int));
            assert(views.take(i + 1).last() == slot_view(slots@[i as int]));
            if slots[i].is_none() {
                count += 1;
            }
            i += 1;
        }
        assert(views.take(i as int) =~= views);
        count
    }

    pub fn all_transcripts_ready(&self) -> (r: bool)
        ensures
            r == forall|i: int|
                0 <= i < self@.transcripts.len() ==> (#[trigger] self@.transcripts[i]) is Some,
    {
        let slots: &Vec<Option<Transcript>> = &self.speech_transcripts;
        let ghost views = slot_views(slots@);
        let mut i: usize = 0;
        while i < slots.len()
            invariant
                i <= slots@.len(),
                views == slot_views(slots@),
                views == self@.transcripts,
                forall|j: int| 0 <= j < i ==> (#[trigger] views[j]) is Some,
            decreases slots@.len() - i,
        {
            assert(views[i as int] == slot_view(slots@[i as int]));
            if slots[i].is_none() {
                assert(self@.transcripts[i as int] is None);
                return false;
            }
            i += 1;
        }
        true
    }

    pub fn push_typed_text(&mut self, text: &str)
        requires
            old(self).wf(),
        ensures
            final(self).wf(),
            final(self)@ == (SessionView {
                typing: old(self)@.typing + typed_atoms(text@),
                ..old(self)@
            }),
    {
        self.typing.push_text(text);
    }

    pub fn push_pasted_text(&mut self, text: String)
        requires
            old(self).wf(),
        ensures
            final(self).wf(),
            final(self)@ == if text@.len() == 0 {
                old(self)@
            } else {
                SessionView {
                    typing: old(self)@.typing.push(AtomView::Paste(text@)),
                    ..old(self)@
                }
            },
    {
        self.typing.push_paste(text);
    }

    pub fn push_typed_line_break(&mut self)
        requires
            old(self).wf(),
        ensures
            final(self).wf(),
            final(self)@ == (SessionView {
                typing: old(self)@.typing.push(AtomView::LineBreak),
                ..old(self)@
            }),
    {
        self.typing.push_line_break();
    }

    /// Take the last typed atom back; false when there is none.
    pub fn backspace(&mut self) -> (r: bool)
        requires
            old(self).wf(),
        ensures
            final(self).wf(),
            r == (old(self)@.typing.len() > 0),
            final(self)@ == if r {
                SessionView { typing: old(self)@.typing.drop_last(), ..old(self)@ }
            } else {
                old(self)@
            },
    {
        self.typing.backspace()
    }

    pub fn typing_is_empty(&self) -> (r: bool)
        ensures
            r == (self@.typing.len() == 0),
    {
        self.typing.is_empty()
    }

    pub fn typing_preview_tail(&self, max_characters: usize) -> (r: String)
        ensures
            r@ == preview_of(self@.typing, max_characters as int),
    {
        self.typing.preview_tail(max_characters)
    }

    fn push_insertion(&mut self, text: String)
        requires
            old(self).wf(),
        ensures
            final(self).wf(),
            final(self)@ == (SessionView {
                entries: old(self)@.entries.push(EntryView::Insertion(text@)),
                ..old(self)@
            }),
    {
        let ghost before = self@;
        proof {
            entry_views_push(self.entries@, CompositionEntry::Insertion(text));
        }
        self.entries.push(CompositionEntry::Insertion(text));
        let total: usize = self.entries.len();
        assert(self@.entries.drop_last() =~= before.entries);
        self.insertion_count = total - self.speech_count;
    }

    /// Turn the typing into one insertion; false when nothing was typed.
    pub fn commit_insertion(&mut self) -> (r: bool)
        requires
            old(self).wf(),
        ensures
            final(self).wf(),
            r == (old(self)@.typing.len() > 0),
            final(self)@ == if r {
                SessionView {
                    entries: old(self)@.entries.push(
                        EntryView::Insertion(actual_text(old(self)@.typing)),
                    ),
                    typing: Seq::empty(),
                    ..old(self)@
                }
            } else {
                old(self)@
            },
    {
        if self.typing.is_empty() {
            return false;
        }
        let text: String = self.typing.take_actual();
        self.push_insertion(text);
        true
    }

    /// Insert one line break directly.
    pub fn commit_line_break(&mut self)
        requires
            old(self).wf(),
        ensures
            final(self).wf(),
            final(self)@ == (SessionView {
                entries: old(self)@.entries.push(EntryView::Insertion(seq!['\n'])),
                ..old(self)@
            }),
    {
        let breaks: Vec<char> = vec!['\n'];
        assert(breaks@ =~= seq!['\n']);
        let text: String = string_of(&breaks);
        self.push_insertion(text);
    }

    pub fn insertion_count(&self) -> (r: usize)
        requires
            self.wf(),
        ensures
            r == self@.entries.len() - speech_entries(self@.entries),
    {
        self.insertion_count
    }

    pub fn audio_bytes(&self) -> (r: usize)
        ensures
            r == self@.audio.len(),
    {
        self.audio_pcm.len()
    }

    pub fn finish(self) -> (r: FinalComposition)
        requires
            self.wf(),
        ensures
            r@ == (FinalView {
                target: self@.target,
                entries: self@.entries,
                speech_count: speech_entries(self@.entries),
                transcripts: self@.transcripts,
            }),
            self@.transcripts.len() == speech_entries(self@.entries),
    {
        FinalComposition {
            target_hwnd: self.target_hwnd,
            entries: self.entries,
            speech_count: self.speech_count,
            segment_transcripts: self.speech_transcripts,
        }
    }
}

/// What a finished composition holds.
pub struct FinalView {
    pub target: isize,
    pub entries: Seq<EntryView>,
    pub speech_count: nat,
    pub transcripts: Seq<Option<TranscriptView>>,
}

/// A finished session, ready to be assembled.
pub struct FinalComposition {
    target_hwnd: isize,
    entries: Vec<CompositionEntry>,
    speech_count: usize,
    segment_transcripts: Vec<Option<Transcript>>,
}

impl View for FinalComposition {
    type V = FinalView;

    closed spec fn view(&self) -> FinalView {
        FinalView {
            target: self.target_hwnd,
            entries: entry_views(self.entries@),
            speech_count: self.speech_count as nat,
            transcripts: slot_views(self.segment_transcripts@),
        }
    }
}

/// Why a composition cannot be assembled.
#[derive(Clone, Copy, Debug, PartialEq, Eq, Structural)]
pub enum AssembleError {
    /// There are more or fewer transcript slots than speech segments.
    SlotsDoNotMatch,
    /// A speech segment has no transcript.
    TranscriptMissing,
}

impl AssembleError {
    pub fn message(&self) -> (r: &'static str)
        ensures
            r@ == match *self {
                AssembleError::SlotsDoNotMatch =>
                    "speech transcripts do not match speech segments"@,
                AssembleError::TranscriptMissing => "speech transcript is missing"@,
            },
    {
        match self {
            AssembleError::SlotsDoNotMatch => "speech transcripts do not match speech segments",
            AssembleError::TranscriptMissing => "speech transcript is missing",
        }
    }
}

/// The texts of the transcripts; a missing one reads as empty.
pub open spec fn transcript_texts(slots: Seq<Option<TranscriptView>>) -> Seq<Seq<char>> {
    slots.map_values(
        |s: Option<TranscriptView>|
            match s {
                Some(t) => t.text,
                None => Seq::empty(),
            },
    )
}

impl FinalView {
    /// The text to insert, or why there is none.
    pub open spec fn outcome(self) -> Result<Seq<char>, AssembleError> {
        if self.speech_count == 0 {
            Ok(assembled(self.entries, Seq::empty()))
        } else if self.transcripts.len() != self.speech_count {
            Err(AssembleError::SlotsDoNotMatch)
        } else if exists|i: int|
            0 <= i < self.transcripts.len() && (#[trigger] self.transcripts[i]) is None {
            Err(AssembleError::TranscriptMissing)
        } else {
            Ok(assembled(self.entries, transcript_texts(self.transcripts)))
        }
    }
}

impl FinalComposition {
    pub fn target_hwnd(&self) -> (r: isize)
        ensures
            r == self@.target,
    {
        self.target_hwnd
    }

    pub fn speech_count(&self) -> (r: usize)
        ensures
            r == self@.speech_count,
    {
        self.speech_count
    }

    /// Interleave one transcript per speech segment with the exact insertions
    /// in chronological order.
    pub fn assemble(&self) -> (r: Result<String, AssembleError>)
        ensures
            match r {
                Ok(text) => self@.outcome() == Ok::<Seq<char>, AssembleError>(text@),
                Err(e) => self@.outcome() == Err::<Seq<char>, AssembleError>(e),
            },
    {
        let mut speech: Vec<Vec<char>> = Vec::new();
        if self.speech_count == 0 {
            assert(text_views(speech@) =~= Seq::empty());
            return Ok(self.assemble_entries(&speech));
        }
        if self.segment_transcripts.len() != self.speech_count {
            return Err(AssembleError::SlotsDoNotMatch);
        }
        let slots: &Vec<Option<Transcript>> = &self.segment_transcripts;
        let ghost views = slot_views(slots@);
        let ghost texts = transcript_texts(views);
        let mut i: usize = 0;
        while i < slots.len()
            invariant
                i <= slots@.len(),
                views == slot_views(slots@),
                texts == transcript_texts(views),
                views == self@.transcripts,
                self@.speech_count != 0,
                self@.speech_count == views.len(),
                text_views(speech@) == texts.take(i as int),
                forall|j: int| 0 <= j < i ==> (#[trigger] views[j]) is Some,
            decreases slots@.len() - i,
        {
            assert(views[i as int] == slot_view(slots@[i as int]));
            match &slots[i] {
                Some(transcript) => {
                    let ghost before = speech@;
                    let text: Vec<char> = chars_of(&transcript.text);
                    speech.push(text);
                    assert(text_views(speech@) =~= text_views(before).push(text@));
                    i += 1;
                    assert(text_views(speech@) =~= texts.take(i as int));
                },
                None => {
                    return Err(AssembleError::TranscriptMissing);
                },
            }
        }
        assert(texts.take(i as int) =~= texts);
        Ok(self.assemble_entries(&speech))
    }

    fn assemble_entries(&self, speech: &Vec<Vec<char>>) -> (r: String)
        ensures
            r@ == assembled(self@.entries, text_views(speech@)),
    {
        let ghost views = entry_views(self.entries@);
        let ghost texts = text_views(speech@);
        let mut result: Vec<char> = Vec::new();
        let mut speech_index: usize = 0;
        let mut i: usize = 0;
        while i < self.entries.len()
            invariant
                speech_index <= i <= self.entries@.len(),
                views == entry_views(self.entries@),
                texts == text_views(speech@),
                speech_index == speech_entries(views.take(i as int)),
                result@ == assembled(views.take(i as int), texts),
            decreases self.entries@.len() - i,
        {
            let ghost next = views.take(i + 1);
            assert(next.drop_last() =~= views.take(i as int));
            assert(next.last() == self.entries@[i as int]@);
            match &self.entries[i] {
                CompositionEntry::Speech => {
                    if speech_index < speech.len() {
                        assert(texts[speech_index as int] == speech@[speech_index as int]@);
                        append_piece(
                            &mut result,
                            &strip_ends(&speech[speech_index], CharClass::WhiteSpace),
                        );
                    }
                    speech_index += 1;
                },
                CompositionEntry::Insertion(text) => append_piece(&mut result, &chars_of(text)),
            }
            i += 1;
        }
        assert(views.take(i as int) =~= views);
        string_of(&result)
    }
}

/// A finished session never has mismatched slots, and assembles exactly when
/// every segment has its transcript.
pub proof fn sessions_assemble_once_ready(f: FinalView)
    requires
        f.transcripts.len() == speech_entries(f.entries),
        f.speech_count == speech_entries(f.entries),
    ensures
        f.outcome() is Ok <==> forall|i: int|
            0 <= i < f.transcripts.len() ==> (#[trigger] f.transcripts[i]) is Some,
        f.outcome() is Err ==> f.outcome() == Err::<Seq<char>, AssembleError>(
            AssembleError::TranscriptMissing,
        ),
{
}

/// Text keeps the order of its entries: what the first entries assemble to is
/// the start of what all of them assemble to.
pub proof fn assembly_keeps_order(entries: Seq<EntryView>, speech: Seq<Seq<char>>, n: int)
    requires
        0 <= n <= entries.len(),
    ensures
        assembled(entries.take(n), speech).is_prefix_of(assembled(entries, speech)),
    decreases entries.len(),
{
    let head = assembled(entries.take(n), speech);
    let all = assembled(entries, speech);
    if n == entries.len() {
        assert(entries.take(n) =~= entries);
        assert(head =~= all.subrange(0, head.len() as int));
    } else {
        let rest = entries.drop_last();
        assembly_keeps_order(rest, speech, n);
        assert(rest.take(n) =~= entries.take(n));
        let before = assembled(rest, speech);
        assert(before =~= all.subrange(0, before.len() as int));
        assert(head =~= all.subrange(0, head.len() as int));
    }
}

/// An insertion reaches the text exactly, white space and line ends included.
pub proof fn insertions_stay_exact(
    entries: Seq<EntryView>,
    speech: Seq<Seq<char>>,
    text: Seq<char>,
)
    ensures
        text.is_suffix_of(assembled(entries.push(EntryView::Insertion(text)), speech)),
        entries.len() == 0 ==> assembled(entries.push(EntryView::Insertion(text)), speech) == text,
{
    let all = assembled(entries.push(EntryView::Insertion(text)), speech);
    let before = assembled(entries, speech);
    assert(entries.push(EntryView::Insertion(text)).drop_last() =~= entries);
    assert(all == joined(before, text));
    assert(text =~= all.subrange(all.len() - text.len(), all.len() as int));
    if entries.len() == 0 {
        assert(all =~= text);
    }
}

/// Speech reaches the text: the next speech entry ends the text with the next
/// transcript, trimmed, and before it stands what the entries before it
/// assemble to, with at most one space in between. A speech entry without a
/// transcript adds nothing.
pub proof fn speech_reaches_the_text(entries: Seq<EntryView>, speech: Seq<Seq<char>>)
    ensures
        ({
            let k = speech_entries(entries) as int;
            let before = assembled(entries, speech);
            let all = assembled(entries.push(EntryView::Speech), speech);
            &&& k < speech.len() ==> {
                let spoken = trimmed(speech[k]);
                let lead = all.take(all.len() - spoken.len());
                &&& spoken.is_suffix_of(all)
                &&& lead == before || lead == before.push(' ')
                &&& before.len() == 0 ==> all == spoken
            }
            &&& k >= speech.len() ==> all == before
        }),
        speech_entries(entries.push(EntryView::Speech)) == speech_entries(entries) + 1,
{
    let k = speech_entries(entries) as int;
    let before = assembled(entries, speech);
    let all = assembled(entries.push(EntryView::Speech), speech);
    assert(entries.push(EntryView::Speech).drop_last() =~= entries);
    if k < speech.len() {
        let spoken = trimmed(speech[k]);
        assert(all == joined(before, spoken));
        assert(spoken =~= all.subrange(all.len() - spoken.len(), all.len() as int));
        assert(all.take(all.len() - spoken.len()) =~= before || all.take(all.len() - spoken.len())
            =~= before.push(' '));
        if before.len() == 0 {
            assert(all =~= spoken);
        }
    }
}

/// Between an insertion and the text before it stands at most one space, and
/// an insertion counts as no speech.
pub proof fn insertions_follow_the_text(
    entries: Seq<EntryView>,
    speech: Seq<Seq<char>>,
    text: Seq<char>,
)
    ensures
        ({
            let before = assembled(entries, speech);
            let all = assembled(entries.push(EntryView::Insertion(text)), speech);
            let lead = all.take(all.len() - text.len());
            lead == before || lead == before.push(' ')
        }),
        speech_entries(entries.push(EntryView::Insertion(text))) == speech_entries(entries),
        assembled(Seq::empty(), speech).len() == 0,
        speech_entries(Seq::empty()) == 0,
{
    let before = assembled(entries, speech);
    let all = assembled(entries.push(EntryView::Insertion(text)), speech);
    assert(entries.push(EntryView::Insertion(text)).drop_last() =~= entries);
    assert(all == joined(before, text));
    assert(all.take(all.len() - text.len()) =~= before || all.take(all.len() - text.len())
        =~= before.push(' '));
}

/// A line break keeps its place exactly: the text before it ends where it
/// begins, with nothing in between.
pub proof fn line_breaks_stand_alone(entries: Seq<EntryView>, speech: Seq<Seq<char>>)
    ensures
        assembled(entries.push(EntryView::Insertion(seq!['\n'])), speech) == assembled(
            entries,
            speech,
        ).push('\n'),
{
    let before = assembled(entries, speech);
    assert(entries.push(EntryView::Insertion(seq!['\n'])).drop_last() =~= entries);
    assert(before + seq!['\n'] =~= before.push('\n'));
}

/// A finished session assembles the texts of its transcripts, one for each
/// speech entry in order, and a session without speech needs none.
pub proof fn sessions_assemble_their_transcripts(f: FinalView, texts: Seq<Seq<char>>)
    requires
        f.transcripts.len() == f.speech_count,
        f.speech_count == speech_entries(f.entries),
        texts.len() == f.speech_count,
        forall|i: int|
            0 <= i < f.transcripts.len() ==> ((#[trigger] f.transcripts[i]) matches Some(t)
                && t.text == texts[i]),
    ensures
        f.outcome() == Ok::<Seq<char>, AssembleError>(assembled(f.entries, texts)),
{
    assert(transcript_texts(f.transcripts) =~= texts) by {
        assert forall|i: int| 0 <= i < texts.len() implies transcript_texts(f.transcripts)[i]
            == texts[i] by {
            assert(f.transcripts[i] is Some);
        }
    }
    if f.speech_count == 0 {
        assert(texts =~= Seq::empty());
    }
    assert(forall|i: int|
        0 <= i < f.transcripts.len() ==> (#[trigger] f.transcripts[i]) is Some);
}

/// Typing is exact: the text that atoms stand for is that of their parts in
/// order, a typed character stands for itself, a paste for its text and a line
/// break for one line feed.
pub proof fn typing_is_exact(a: Seq<AtomView>, b: Seq<AtomView>, c: char, text: Seq<char>)
    ensures
        actual_text(a + b) == actual_text(a) + actual_text(b),
        actual_text(a.push(AtomView::Character(c))) == actual_text(a).push(c),
        actual_text(a.push(AtomView::Paste(text))) == actual_text(a) + text,
        actual_text(a.push(AtomView::LineBreak)) == actual_text(a).push('\n'),
        actual_text(Seq::empty()).len() == 0,
    decreases b.len(),
{
    assert(a.push(AtomView::Character(c)).drop_last() =~= a);
    assert(a.push(AtomView::Paste(text)).drop_last() =~= a);
    assert(a.push(AtomView::LineBreak).drop_last() =~= a);
    assert(actual_text(a) + seq![c] =~= actual_text(a).push(c));
    assert(actual_text(a) + seq!['\n'] =~= actual_text(a).push('\n'));
    if b.len() == 0 {
        assert(a + b =~= a);
        assert(actual_text(a) + actual_text(b) =~= actual_text(a));
    } else {
        typing_is_exact(a, b.drop_last(), c, text);
        assert((a + b).drop_last() =~= a + b.drop_last());
        assert((a + b).last() == b.last());
        assert(actual_text(a + b) =~= actual_text(a) + actual_text(b));
    }
}

/// Exactly the control characters of a typed text leave; each other character
/// becomes an atom of its own behind those before it.
pub proof fn typed_text_loses_only_controls(text: Seq<char>, c: char)
    ensures
        typed_atoms(Seq::empty()).len() == 0,
        c as u32 <= 0x1f || 0x7f <= c as u32 <= 0x9f ==> typed_atoms(text.push(c)) == typed_atoms(
            text,
        ),
        !(c as u32 <= 0x1f || 0x7f <= c as u32 <= 0x9f) ==> typed_atoms(text.push(c))
            == typed_atoms(text).push(AtomView::Character(c)),
{
    typed_atoms_push(text, c);
}

/// What the preview shows for an atom: a character as it is, a marker for a
/// paste, and an arrow for a line break.
pub proof fn previews_mark_pastes_and_breaks(atoms: Seq<AtomView>, c: char, text: Seq<char>)
    ensures
        full_preview(atoms.push(AtomView::Character(c))) == full_preview(atoms).push(c),
        full_preview(atoms.push(AtomView::Paste(text))) == full_preview(atoms) + "[pasted]"@,
        full_preview(atoms.push(AtomView::LineBreak)) == full_preview(atoms).push('\u{21b5}'),
{
    assert(atoms.push(AtomView::Character(c)).drop_last() =~= atoms);
    assert(atoms.push(AtomView::Paste(text)).drop_last() =~= atoms);
    assert(atoms.push(AtomView::LineBreak).drop_last() =~= atoms);
    assert(full_preview(atoms) + seq![c] =~= full_preview(atoms).push(c));
    assert(full_preview(atoms) + seq!['\u{21b5}'] =~= full_preview(atoms).push('\u{21b5}'));
}

/// The preview shows as many whole atoms from the end as fit: all of them
/// where they do, and otherwise the next one would not fit any more.
pub proof fn previews_show_as_much_as_fits(atoms: Seq<AtomView>, max: nat) -> (n: int)
    ensures
        0 <= n <= atoms.len(),
        preview_of(atoms, max as int) == full_preview(atoms.skip(n)),
        n > 0 ==> full_preview(atoms.skip(n - 1)).len() > max,
        full_preview(atoms).len() <= max ==> preview_of(atoms, max as int) == full_preview(atoms),
    decreases atoms.len(),
{
    if atoms.len() == 0 {
        assert(atoms.skip(0) =~= atoms);
        0
    } else if atoms.last().shown().len() > max {
        let n = atoms.len() as int;
        assert(atoms.skip(n) =~= Seq::empty());
        assert(atoms.skip(n - 1) =~= seq![atoms.last()]);
        assert(seq![atoms.last()].drop_last() =~= Seq::empty());
        reveal_with_fuel(full_preview, 2);
        assert(full_preview(seq![atoms.last()]) =~= atoms.last().shown());
        n
    } else {
        let rest = atoms.drop_last();
        let room = (max - atoms.last().shown().len()) as nat;
        let n = previews_show_as_much_as_fits(rest, room);
        assert(atoms.skip(n).drop_last() =~= rest.skip(n));
        if n < atoms.len() {
            assert(atoms.skip(n).last() == atoms.last());
        }
        if n > 0 {
            assert(atoms.skip(n - 1).drop_last() =~= rest.skip(n - 1));
            assert(atoms.skip(n - 1).last() == atoms.last());
        }
        n
    }
}

/// A pause is long from five seconds on, and 250 milliseconds of it stay at
/// either edge: a quarter of a second's samples, of two bytes each.
pub proof fn long_means_five_seconds(rate: nat, gap: Seq<u8>)
    ensures
        long_gap(rate, gap) <==> gap.len() > 0 && gap.len() / 2 >= 5 * rate,
        edge_bytes(rate) % 2 == 0,
        rate % 4 == 0 ==> edge_bytes(rate) * 2 == rate,
        edge_bytes(rate) * 2 <= rate < edge_bytes(rate) * 2 + 4,
        !long_gap(rate, gap) ==> kept_of_gap(rate, gap, true) == gap && kept_of_gap(
            rate,
            gap,
            false,
        ) == gap,
{
    assert(rate * 250 / 1000 == rate / 4);
}

/// A chunk loses at most its last byte, and only to come out even.
pub proof fn chunks_keep_their_samples(pcm: Seq<u8>)
    ensures
        whole_samples(pcm).len() % 2 == 0,
        whole_samples(pcm).is_prefix_of(pcm),
        pcm.len() - 1 <= whole_samples(pcm).len() <= pcm.len(),
{
    assert(whole_samples(pcm) =~= pcm.subrange(0, whole_samples(pcm).len() as int));
}

/// Silence only lengthens the pause, and speech ends it: a silent chunk joins
/// the pause in full and an active one leaves none. An empty chunk changes
/// nothing, and the rate stays.
pub proof fn chunks_lengthen_or_end_the_pause(h: Heard, pcm: Seq<u8>, signal_active: bool)
    ensures
        ({
            let after = h.after(pcm, signal_active);
            let chunk = whole_samples(pcm);
            &&& after.rate == h.rate
            &&& chunk.len() == 0 ==> after == h
            &&& chunk.len() > 0 && signal_active ==> after.has_speech && after.gap.len() == 0
                && chunk.is_suffix_of(after.spoken)
            &&& chunk.len() > 0 && !signal_active ==> after.gap == h.gap + chunk && after.spoken
                == h.spoken && after.has_speech == h.has_speech
        }),
{
    let after = h.after(pcm, signal_active);
    let chunk = whole_samples(pcm);
    if chunk.len() > 0 && signal_active {
        assert(chunk =~= after.spoken.subrange(
            after.spoken.len() - chunk.len(),
            after.spoken.len() as int,
        ));
    }
}

/// Pending are exactly the slots without a transcript.
pub proof fn pending_slots_wait(slots: Seq<Option<TranscriptView>>, t: TranscriptView)
    ensures
        pending_slots(slots) <= slots.len(),
        pending_slots(slots) == 0 <==> forall|i: int|
            0 <= i < slots.len() ==> (#[trigger] slots[i]) is Some,
        pending_slots(slots.push(None)) == pending_slots(slots) + 1,
        pending_slots(slots.push(Some(t))) == pending_slots(slots),
    decreases slots.len(),
{
    assert(slots.push(None).drop_last() =~= slots);
    assert(slots.push(Some(t)).drop_last() =~= slots);
    if slots.len() > 0 {
        let rest = slots.drop_last();
        pending_slots_wait(rest, t);
        assert(slots.last() == slots[slots.len() - 1]);
        if pending_slots(slots) == 0 {
            assert forall|i: int| 0 <= i < slots.len() implies (#[trigger] slots[i]) is Some by {
                if i < rest.len() {
                    assert(rest[i] is Some);
                }
            }
        }
        if forall|i: int| 0 <= i < slots.len() ==> (#[trigger] slots[i]) is Some {
            assert forall|i: int| 0 <= i < rest.len() implies (#[trigger] rest[i]) is Some by {
                assert(slots[i] is Some);
            }
        }
    }
}

} // verus!
