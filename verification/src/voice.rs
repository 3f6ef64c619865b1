use vstd::prelude::*;
use vstd::string::{StrSliceExecFns, StringExecFns};
use crate::error::{PiperError, PiperResult};
use crate::wave::PiperWaveInfo;

verus! {

/// The alphabet a voice's phonemes are drawn from.
#[derive(Debug, Clone, Copy)]
pub enum PhonemeType {
    Ipa,
    Text,
}

/// One entry of a voice's phoneme table: a phoneme and the ids that stand for it.
#[derive(Debug)]
pub struct PhonemeIds {
    pub phoneme: char,
    pub ids: Vec<i64>,
}

/// One entry of a voice's speaker table.
#[derive(Debug)]
pub struct Speaker {
    pub name: String,
    pub id: i64,
}

/// What is known of a voice apart from its model. The three scales are held
/// as the bit patterns of single-precision numbers.
#[derive(Debug)]
pub struct VoiceConfig {
    pub phoneme_id_map: Vec<PhonemeIds>,
    pub speaker_id_map: Vec<Speaker>,
    pub sample_rate: usize,
    pub num_speakers: usize,
    pub pad_token_id: i64,
    pub bos_token_id: i64,
    pub eos_token_id: i64,
    pub noise_scale: u32,
    pub length_scale: u32,
    pub noise_w_scale: u32,
    pub phoneme_type: PhonemeType,
}

/// The ids of phoneme `c` in `table`, where it has an entry.
pub open spec fn ids_of(table: Seq<PhonemeIds>, c: char) -> Option<Seq<i64>>
    decreases table.len(),
{
    if table.len() == 0 {
        None
    } else if table.last().phoneme == c {
        Some(table.last().ids@)
    } else {
        ids_of(table.drop_last(), c)
    }
}

/// True where `id` stands for some phoneme of `table`.
pub open spec fn id_present(table: Seq<PhonemeIds>, id: i64) -> bool {
    exists|j: int, k: int|
        0 <= j < table.len() && 0 <= k < table[j].ids@.len() && #[trigger] table[j].ids@[k] == id
}

/// The id of the speaker called `name` in `table`, where there is one.
pub open spec fn speaker_id_of(table: Seq<Speaker>, name: Seq<char>) -> Option<i64>
    decreases table.len(),
{
    if table.len() == 0 {
        None
    } else if table.last().name@ == name {
        Some(table.last().id)
    } else {
        speaker_id_of(table.drop_last(), name)
    }
}

/// The number of phonemes among `phonemes` that `table` knows.
pub open spec fn known_count(table: Seq<PhonemeIds>, phonemes: Seq<char>) -> nat
    decreases phonemes.len(),
{
    if phonemes.len() == 0 {
        0
    } else {
        known_count(table, phonemes.drop_last()) + if ids_of(table, phonemes.last()) is Some {
            1nat
        } else {
            0nat
        }
    }
}

/// The ids of the known phonemes among `phonemes`, in order, with `pad`
/// between neighbours. Phonemes that `table` does not know leave no trace.
pub open spec fn interleaved(table: Seq<PhonemeIds>, pad: i64, phonemes: Seq<char>) -> Seq<i64>
    decreases phonemes.len(),
{
    if phonemes.len() == 0 {
        Seq::empty()
    } else {
        let before = interleaved(table, pad, phonemes.drop_last());
        match ids_of(table, phonemes.last()) {
            None => before,
            Some(ids) => if known_count(table, phonemes.drop_last()) == 0 {
                before + ids
            } else {
                before + seq![pad] + ids
            },
        }
    }
}

/// `row` followed by as many `pad` as bring it to length `n`.
pub open spec fn padded(row: Seq<i64>, n: int, pad: i64) -> Seq<i64> {
    if row.len() >= n {
        row
    } else {
        row + Seq::new((n - row.len()) as nat, |i: int| pad)
    }
}

/// The rows as plain sequences.
pub open spec fn row_views(rows: Seq<Vec<i64>>) -> Seq<Seq<i64>> {
    Seq::new(rows.len(), |i: int| rows[i]@)
}

/// The length of the longest of `rows`.
pub open spec fn longest(rows: Seq<Seq<i64>>) -> nat
    decreases rows.len(),
{
    if rows.len() == 0 {
        0
    } else {
        let before = longest(rows.drop_last());
        if rows.last().len() > before {
            rows.last().len()
        } else {
            before
        }
    }
}

/// The number of samples kept of `total` for a row of `len` ids that was
/// padded to `padded_len`: the share of the padding is cut from the end.
pub open spec fn kept_len(total: nat, padded_len: nat, len: nat) -> nat {
    if padded_len == 0 || len >= padded_len {
        total
    } else {
        (total - (total * (padded_len - len)) / (padded_len as int)) as nat
    }
}

/// True of the bit pattern of a single-precision number that is finite and
/// greater than zero.
pub open spec fn is_positive_finite(bits: u32) -> bool {
    0 < bits < 0x7f80_0000
}

impl VoiceConfig {
    /// True where the description can serve a voice: a positive sample rate,
    /// a phoneme table with entries, and pad, start and end ids that stand in it.
    pub open spec fn is_valid(&self) -> bool {
        &&& self.sample_rate > 0
        &&& self.phoneme_id_map@.len() > 0
        &&& id_present(self.phoneme_id_map@, self.pad_token_id)
        &&& id_present(self.phoneme_id_map@, self.bos_token_id)
        &&& id_present(self.phoneme_id_map@, self.eos_token_id)
    }

    /// True of a voice that has more than one speaker to choose from.
    pub open spec fn is_multi_speaker(&self) -> bool {
        self.num_speakers > 1
    }

    /// The model input for one sentence: the start id, the ids of its known
    /// phonemes with the pad id between neighbours, the end id.
    pub open spec fn encoded(&self, phonemes: Seq<char>) -> Seq<i64> {
        seq![self.bos_token_id] + interleaved(self.phoneme_id_map@, self.pad_token_id, phonemes)
            + seq![self.eos_token_id]
    }

    fn has_id(&self, id: i64) -> (b: bool)
        ensures
            b == id_present(self.phoneme_id_map@, id),
    {
        let mut j: usize = 0;
        while j < self.phoneme_id_map.len()
            invariant
                j <= self.phoneme_id_map@.len(),
                forall|a: int, k: int|
                    0 <= a < j && 0 <= k < self.phoneme_id_map@[a].ids@.len()
                        ==> #[trigger] self.phoneme_id_map@[a].ids@[k] != id,
            decreases self.phoneme_id_map@.len() - j,
        {
            let ids = &self.phoneme_id_map[j].ids;
            let mut k: usize = 0;
            while k < ids.len()
                invariant
                    k <= ids@.len(),
                    j < self.phoneme_id_map@.len(),
                    ids@ == self.phoneme_id_map@[j as int].ids@,
                    forall|b: int| 0 <= b < k ==> ids@[b] != id,
                decreases ids@.len() - k,
            {
                if ids[k] == id {
                    return true;
                }
                k += 1;
            }
            j += 1;
        }
        false
    }

    /// Checks the description. A description that cannot serve a voice is a
    /// `FailedToLoadResource`.
    pub fn validate(&self) -> (r: PiperResult<()>)
        ensures
            r is Ok <==> self.is_valid(),
            r is Err ==> r->Err_0 is FailedToLoadResource,
    {
        if self.sample_rate == 0 {
            return Err(
                PiperError::FailedToLoadResource(String::from_str("sample rate must be positive")),
            );
        }
        if self.phoneme_id_map.len() == 0 {
            return Err(PiperError::FailedToLoadResource(String::from_str("empty phoneme table")));
        }
        if !self.has_id(self.pad_token_id) || !self.has_id(self.bos_token_id) || !self.has_id(
            self.eos_token_id,
        ) {
            return Err(
                PiperError::FailedToLoadResource(
                    String::from_str("pad, start or end id missing from the phoneme table"),
                ),
            );
        }
        Ok(())
    }

    /// The format of the audio of this voice: mono, two bytes per sample, at
    /// the voice's sample rate.
    pub fn wave_info(&self) -> (info: PiperWaveInfo)
        ensures
            info.sample_rate == self.sample_rate,
            info.num_channels == 1,
            info.sample_width == 2,
    {
        PiperWaveInfo { sample_rate: self.sample_rate, num_channels: 1, sample_width: 2 }
    }

    /// The voice's speakers by name; none for a voice with a single speaker.
    pub fn speakers(&self) -> (table: &Vec<Speaker>)
        ensures
            *table == self.speaker_id_map,
    {
        &self.speaker_id_map
    }

    /// The ids that stand for phoneme `c`, where the voice knows it.
    pub fn phoneme_ids(&self, c: char) -> (r: Option<&Vec<i64>>)
        ensures
            match r {
                Some(ids) => ids_of(self.phoneme_id_map@, c) == Some(ids@),
                None => ids_of(self.phoneme_id_map@, c) is None,
            },
    {
        let mut i: usize = self.phoneme_id_map.len();
        proof {
            assert(self.phoneme_id_map@.take(i as int) =~= self.phoneme_id_map@);
        }
        while i > 0
            invariant
                i <= self.phoneme_id_map@.len(),
                ids_of(self.phoneme_id_map@, c) == ids_of(self.phoneme_id_map@.take(i as int), c),
            decreases i,
        {
            proof {
                assert(self.phoneme_id_map@.take(i as int).drop_last()
                    =~= self.phoneme_id_map@.take(i - 1));
            }
            if self.phoneme_id_map[i - 1].phoneme == c {
                return Some(&self.phoneme_id_map[i - 1].ids);
            }
            i -= 1;
        }
        None
    }

    /// The id of the speaker called `name`, where the voice has one.
    pub fn speaker_id(&self, name: &String) -> (r: Option<i64>)
        ensures
            r == speaker_id_of(self.speaker_id_map@, name@),
    {
        let mut i: usize = self.speaker_id_map.len();
        proof {
            assert(self.speaker_id_map@.take(i as int) =~= self.speaker_id_map@);
        }
        while i > 0
            invariant
                i <= self.speaker_id_map@.len(),
                speaker_id_of(self.speaker_id_map@, name@) == speaker_id_of(
                    self.speaker_id_map@.take(i as int),
                    name@,
                ),
            decreases i,
        {
            proof {
                assert(self.speaker_id_map@.take(i as int).drop_last()
                    =~= self.speaker_id_map@.take(i - 1));
            }
            if self.speaker_id_map[i - 1].name.eq(name) {
                return Some(self.speaker_id_map[i - 1].id);
            }
            i -= 1;
        }
        None
    }

    /// The model input of each of `sentences`, before padding.
    pub open spec fn encoded_each(&self, sentences: Seq<String>) -> Seq<Seq<i64>> {
        Seq::new(sentences.len(), |i: int| self.encoded(sentences[i]@))
    }

    /// Encodes the phonemes of several sentences as one model input: each row
    /// is the input of its sentence, filled up with the pad id to the length
    /// of the longest.
    pub fn encode_batch(&self, sentences: &Vec<String>) -> (batch: EncodedBatch)
        ensures
            batch.rows@.len() == sentences@.len(),
            batch.lengths@.len() == sentences@.len(),
            forall|i: int|
                0 <= i < sentences@.len() ==> (#[trigger] batch.lengths@[i]) == self.encoded(
                    sentences@[i]@,
                ).len(),
            forall|i: int|
                0 <= i < sentences@.len() ==> (#[trigger] batch.rows@[i])@ == padded(
                    self.encoded(sentences@[i]@),
                    longest(self.encoded_each(sentences@)) as int,
                    self.pad_token_id,
                ),
    {
        let mut rows: Vec<Vec<i64>> = Vec::new();
        let mut lengths: Vec<usize> = Vec::new();
        let mut i: usize = 0;
        while i < sentences.len()
            invariant
                i <= sentences@.len(),
                rows@.len() == i,
                lengths@.len() == i,
                forall|j: int|
                    0 <= j < i ==> (#[trigger] lengths@[j]) == self.encoded(sentences@[j]@).len(),
                forall|j: int|
                    0 <= j < i ==> (#[trigger] rows@[j])@ == self.encoded(sentences@[j]@),
            decreases sentences@.len() - i,
        {
            let row = self.phonemes_to_ids(sentences[i].as_str());
            lengths.push(row.len());
            rows.push(row);
            i += 1;
        }
        proof {
            assert(row_views(rows@) =~= self.encoded_each(sentences@));
        }
        let padded_rows = pad_rows(&rows, self.pad_token_id);
        EncodedBatch { rows: padded_rows, lengths }
    }

    /// Encodes the phonemes of one sentence as model input.
    pub fn phonemes_to_ids(&self, phonemes: &str) -> (ids: Vec<i64>)
        ensures
            ids@ == self.encoded(phonemes@),
    {
        let n = phonemes.unicode_len();
        let mut out: Vec<i64> = Vec::new();
        out.push(self.bos_token_id);
        let mut seen = false;
        let mut i: usize = 0;
        proof {
            assert(out@ =~= seq![self.bos_token_id] + interleaved(
                self.phoneme_id_map@,
                self.pad_token_id,
                phonemes@.take(0),
            ));
        }
        while i < n
            invariant
                i <= n,
                n == phonemes@.len(),
                seen == (known_count(self.phoneme_id_map@, phonemes@.take(i as int)) > 0),
                out@ == seq![self.bos_token_id] + interleaved(
                    self.phoneme_id_map@,
                    self.pad_token_id,
                    phonemes@.take(i as int),
                ),
            decreases n - i,
        {
            let c = phonemes.get_char(i);
            proof {
                assert(phonemes@.take(i + 1).drop_last() =~= phonemes@.take(i as int));
                assert(phonemes@.take(i + 1).last() == c);
            }
            match self.phoneme_ids(c) {
                Some(ids) => {
                    if seen {
                        out.push(self.pad_token_id);
                    }
                    let ghost middle = out@;
                    let mut k: usize = 0;
                    while k < ids.len()
                        invariant
                            k <= ids@.len(),
                            out@ == middle + ids@.take(k as int),
                        decreases ids@.len() - k,
                    {
                        out.push(ids[k]);
                        proof {
                            assert(out@ =~= middle + ids@.take(k + 1));
                        }
                        k += 1;
                    }
                    proof {
                        assert(ids@.take(ids@.len() as int) =~= ids@);
                        assert(out@ =~= seq![self.bos_token_id] + interleaved(
                            self.phoneme_id_map@,
                            self.pad_token_id,
                            phonemes@.take(i + 1),
                        ));
                    }
                    seen = true;
                },
                None => {},
            }
            i += 1;
        }
        proof {
            assert(phonemes@.take(n as int) =~= phonemes@);
        }
        out.push(self.eos_token_id);
        out
    }
}

/// Brings all rows to the length of the longest by adding `pad` at their ends.
pub fn pad_rows(rows: &Vec<Vec<i64>>, pad: i64) -> (out: Vec<Vec<i64>>)
    ensures
        out@.len() == rows@.len(),
        forall|i: int|
            0 <= i < rows@.len() ==> (#[trigger] out@[i])@ == padded(
                rows@[i]@,
                longest(row_views(rows@)) as int,
                pad,
            ),
{
    let width = longest_row(rows);
    let mut out: Vec<Vec<i64>> = Vec::new();
    let mut i: usize = 0;
    while i < rows.len()
        invariant
            i <= rows@.len(),
            out@.len() == i,
            width == longest(row_views(rows@)),
            forall|j: int|
                0 <= j < i ==> (#[trigger] out@[j])@ == padded(rows@[j]@, width as int, pad),
        decreases rows@.len() - i,
    {
        let row = &rows[i];
        let mut filled: Vec<i64> = Vec::new();
        let mut k: usize = 0;
        while k < row.len()
            invariant
                k <= row@.len(),
                filled@ == row@.take(k as int),
            decreases row@.len() - k,
        {
            filled.push(row[k]);
            proof {
                assert(filled@ =~= row@.take(k + 1));
            }
            k += 1;
        }
        proof {
            assert(row@.take(row@.len() as int) =~= row@);
        }
        while filled.len() < width
            invariant
                row@.len() <= filled@.len(),
                filled@.len() <= width || filled@.len() == row@.len(),
                filled@ == row@ + Seq::new((filled@.len() - row@.len()) as nat, |a: int| pad),
            decreases width - filled@.len(),
        {
            filled.push(pad);
            proof {
                assert(filled@ =~= row@ + Seq::new(
                    (filled@.len() - row@.len()) as nat,
                    |a: int| pad,
                ));
            }
        }
        proof {
            assert(filled@ =~= padded(row@, width as int, pad));
        }
        out.push(filled);
        i += 1;
    }
    out
}

/// The length of the longest of `rows`.
pub fn longest_row(rows: &Vec<Vec<i64>>) -> (n: usize)
    ensures
        n == longest(row_views(rows@)),
{
    let mut best: usize = 0;
    let mut i: usize = 0;
    let ghost views = row_views(rows@);
    while i < rows.len()
        invariant
            i <= rows@.len(),
            views == row_views(rows@),
            best == longest(views.take(i as int)),
        decreases rows@.len() - i,
    {
        proof {
            assert(views.take(i + 1).drop_last() =~= views.take(i as int));
        }
        if rows[i].len() > best {
            best = rows[i].len();
        }
        i += 1;
    }
    proof {
        assert(views.take(rows@.len() as int) =~= views);
    }
    best
}

/// The model input for several sentences: one row of ids for each, all of one
/// length, and the length that each row had before it was padded.
#[derive(Debug)]
pub struct EncodedBatch {
    pub rows: Vec<Vec<i64>>,
    pub lengths: Vec<usize>,
}

/// The number of samples to keep of the `total` that a batched inference
/// gave for a row of `len` ids padded to `padded_len`.
pub fn kept_samples(total: usize, padded_len: usize, len: usize) -> (kept: usize)
    ensures
        kept == kept_len(total as nat, padded_len as nat, len as nat),
        kept <= total,
{
    if padded_len == 0 || len >= padded_len {
        return total;
    }
    let t: u128 = total as u128;
    let cut: u128 = (padded_len - len) as u128;
    let whole: u128 = padded_len as u128;
    assert(t * cut <= t * whole <= 0xffff_ffff_ffff_ffff * 0xffff_ffff_ffff_ffff)
        by (nonlinear_arith)
        requires
            cut <= whole <= 0xffff_ffff_ffff_ffff,
            t <= 0xffff_ffff_ffff_ffff,
    ;
    let trimmed: u128 = (t * cut) / whole;
    assert(trimmed <= t) by (nonlinear_arith)
        requires
            trimmed == (t * cut) / (whole as int),
            t * cut <= t * whole,
            whole > 0,
    ;
    (t - trimmed) as usize
}

/// What may change about a voice while it is in use: the speaker and the
/// three scales, the latter as bit patterns of single-precision numbers.
#[derive(Debug, Clone, Copy)]
pub struct RuntimeVoiceState {
    pub selected_speaker_id: Option<i64>,
    pub length_scale: u32,
    pub noise_scale: u32,
    pub noise_w_scale: u32,
}

impl RuntimeVoiceState {
    /// The state a voice starts in: its own scales, and its first speaker
    /// where it has several.
    pub fn new(config: &VoiceConfig) -> (state: Self)
        ensures
            state.length_scale == config.length_scale,
            state.noise_scale == config.noise_scale,
            state.noise_w_scale == config.noise_w_scale,
            state.selected_speaker_id == (if config.is_multi_speaker() {
                Some(0i64)
            } else {
                None
            }),
    {
        Self {
            selected_speaker_id: if config.num_speakers > 1 {
                Some(0)
            } else {
                None
            },
            length_scale: config.length_scale,
            noise_scale: config.noise_scale,
            noise_w_scale: config.noise_w_scale,
        }
    }

    /// The state after a length scale was asked for: changed where the scale
    /// is finite and positive, else as before.
    pub open spec fn with_length_scale(self, bits: u32) -> Self {
        if is_positive_finite(bits) {
            Self { length_scale: bits, ..self }
        } else {
            self
        }
    }

    /// The state after a noise scale was asked for.
    pub open spec fn with_noise_scale(self, bits: u32) -> Self {
        if is_positive_finite(bits) {
            Self { noise_scale: bits, ..self }
        } else {
            self
        }
    }

    /// The state after a noise width scale was asked for.
    pub open spec fn with_noise_w_scale(self, bits: u32) -> Self {
        if is_positive_finite(bits) {
            Self { noise_w_scale: bits, ..self }
        } else {
            self
        }
    }

    /// The state after the speaker called `name` was asked for: changed
    /// where the voice has several speakers and one of that name, else as before.
    pub open spec fn with_speaker(self, config: &VoiceConfig, name: Seq<char>) -> Self {
        match speaker_id_of(config.speaker_id_map@, name) {
            Some(id) => if config.is_multi_speaker() {
                Self { selected_speaker_id: Some(id), ..self }
            } else {
                self
            },
            None => self,
        }
    }

    /// Selects the speaker called `name` for what is spoken from now on. An
    /// unknown name, or a voice with a single speaker, is an `OperationError`
    /// and leaves the state as it was.
    pub fn set_speaker(&mut self, config: &VoiceConfig, name: &String) -> (r: PiperResult<()>)
        ensures
            *final(self) == old(self).with_speaker(config, name@),
            r is Ok <==> config.is_multi_speaker() && speaker_id_of(
                config.speaker_id_map@,
                name@,
            ) is Some,
            r is Err ==> r->Err_0 is OperationError && *final(self) == *old(self),
    {
        if config.num_speakers <= 1 {
            return Err(PiperError::operation("The voice has a single speaker"));
        }
        match config.speaker_id(name) {
            Some(id) => {
                self.selected_speaker_id = Some(id);
                Ok(())
            },
            None => Err(PiperError::operation("Unknown speaker")),
        }
    }

    /// Sets the length scale. A value that is not finite and positive is an
    /// `OperationError` and leaves the state as it was.
    pub fn set_length_scale(&mut self, bits: u32) -> (r: PiperResult<()>)
        ensures
            *final(self) == old(self).with_length_scale(bits),
            r is Ok <==> is_positive_finite(bits),
            r is Err ==> r->Err_0 is OperationError && *final(self) == *old(self),
    {
        if bits == 0 || bits >= 0x7f80_0000 {
            return Err(PiperError::operation("The length scale must be finite and positive"));
        }
        self.length_scale = bits;
        Ok(())
    }

    /// Sets the noise scale. A value that is not finite and positive is an
    /// `OperationError` and leaves the state as it was.
    pub fn set_noise_scale(&mut self, bits: u32) -> (r: PiperResult<()>)
        ensures
            *final(self) == old(self).with_noise_scale(bits),
            r is Ok <==> is_positive_finite(bits),
            r is Err ==> r->Err_0 is OperationError && *final(self) == *old(self),
    {
        if bits == 0 || bits >= 0x7f80_0000 {
            return Err(PiperError::operation("The noise scale must be finite and positive"));
        }
        self.noise_scale = bits;
        Ok(())
    }

    /// Sets the noise width scale. A value that is not finite and positive is
    /// an `OperationError` and leaves the state as it was.
    pub fn set_noise_w_scale(&mut self, bits: u32) -> (r: PiperResult<()>)
        ensures
            *final(self) == old(self).with_noise_w_scale(bits),
            r is Ok <==> is_positive_finite(bits),
            r is Err ==> r->Err_0 is OperationError && *final(self) == *old(self),
    {
        if bits == 0 || bits >= 0x7f80_0000 {
            return Err(PiperError::operation("The noise width scale must be finite and positive"));
        }
        self.noise_w_scale = bits;
        Ok(())
    }
}

/// Asking for the same length scale twice leaves the state that asking once
/// leaves.
pub proof fn lemma_set_length_scale_idempotent(state: RuntimeVoiceState, bits: u32)
    ensures
        state.with_length_scale(bits).with_length_scale(bits) == state.with_length_scale(bits),
{
}

/// Asking for a speaker that the voice does not have leaves the state as it was.
pub proof fn lemma_unknown_speaker_keeps_state(
    state: RuntimeVoiceState,
    config: &VoiceConfig,
    name: Seq<char>,
)
    requires
        speaker_id_of(config.speaker_id_map@, name) is None,
    ensures
        state.with_speaker(config, name) == state,
{
}

} // verus!
