//! The capture state: whether the microphone is being recorded, the samples
//! recorded so far and the sample rate they were taken at.
//!
//! The sample type is a parameter: the stream hands over mono samples, which
//! the state only stores, counts and hands back.
use vstd::prelude::*;

verus! {

/// Sample rate assumed before any device has been opened.
pub const DEFAULT_INPUT_SAMPLE_RATE: u32 = 48000;

/// Number of bars of the level meter.
pub const LEVEL_BINS: usize = 32;

/// A recording longer than this many samples can serve as the voice
/// reference of speech synthesis.
pub const REFERENCE_MIN_SAMPLES: usize = 16000;

/// The recording state shared by the stream callback and the commands.
pub struct CaptureState<T> {
    buffer: Option<Vec<T>>,
    active: bool,
    input_sample_rate: u32,
}

/// The abstract capture state: the recording buffer (`None` until it has
/// been set up), whether capture is running, and the input sample rate.
pub ghost struct CaptureView<T> {
    pub buffer: Option<Seq<T>>,
    pub active: bool,
    pub input_sample_rate: u32,
}

impl<T> View for CaptureState<T> {
    type V = CaptureView<T>;

    closed spec fn view(&self) -> CaptureView<T> {
        CaptureView {
            buffer: match self.buffer {
                Some(b) => Some(b@),
                None => None,
            },
            active: self.active,
            input_sample_rate: self.input_sample_rate,
        }
    }
}

/// Number of samples recorded: the buffer's length, zero when there is none.
pub open spec fn sample_count<T>(s: CaptureView<T>) -> nat {
    match s.buffer {
        Some(b) => b.len(),
        None => 0,
    }
}

/// The state after the stream delivered `chunk`: appended to the recording
/// while capture runs, dropped otherwise.
pub open spec fn after_chunk<T>(s: CaptureView<T>, chunk: Seq<T>) -> CaptureView<T> {
    if s.active && s.buffer is Some {
        CaptureView { buffer: Some(s.buffer->0 + chunk), ..s }
    } else {
        s
    }
}

/// The state after the stream delivered each of `chunks` in turn.
pub open spec fn after_chunks<T>(s: CaptureView<T>, chunks: Seq<Seq<T>>) -> CaptureView<T>
    decreases chunks.len(),
{
    if chunks.len() == 0 {
        s
    } else {
        after_chunk(after_chunks(s, chunks.drop_last()), chunks.last())
    }
}

impl<T> CaptureState<T> {
    /// A state with no buffer yet, not capturing, at the default rate.
    pub fn new() -> (r: Self)
        ensures
            r@.buffer is None,
            !r@.active,
            r@.input_sample_rate == DEFAULT_INPUT_SAMPLE_RATE,
    {
        CaptureState { buffer: None, active: false, input_sample_rate: DEFAULT_INPUT_SAMPLE_RATE }
    }

    /// The recorded samples, if the buffer has been set up.
    pub fn samples(&self) -> (r: Option<&Vec<T>>)
        ensures
            match r {
                Some(b) => self@.buffer == Some(b@),
                None => self@.buffer is None,
            },
    {
        match &self.buffer {
            Some(b) => Some(b),
            None => None,
        }
    }

    /// The sample rate of the input device the last capture was opened on.
    pub fn input_sample_rate(&self) -> (r: u32)
        ensures
            r == self@.input_sample_rate,
    {
        self.input_sample_rate
    }
}

/// Sets up the recording buffer once; a buffer already set up is kept with
/// its samples.
pub fn init_audio_buffer<T>(state: &mut CaptureState<T>)
    ensures
        final(state)@.buffer == (match old(state)@.buffer {
            Some(b) => Some(b),
            None => Some(Seq::<T>::empty()),
        }),
        final(state)@.active == old(state)@.active,
        final(state)@.input_sample_rate == old(state)@.input_sample_rate,
{
    if state.buffer.is_none() {
        state.buffer = Some(Vec::new());
    }
}

/// Empties the recording buffer, if there is one.
pub fn clear_audio_buffer<T>(state: &mut CaptureState<T>)
    ensures
        final(state)@.buffer == (match old(state)@.buffer {
            Some(_) => Some(Seq::<T>::empty()),
            None => None,
        }),
        final(state)@.active == old(state)@.active,
        final(state)@.input_sample_rate == old(state)@.input_sample_rate,
{
    if state.buffer.is_some() {
        state.buffer = Some(Vec::new());
    }
}

/// Number of samples recorded so far.
pub fn get_audio_buffer_samples<T>(state: &CaptureState<T>) -> (r: usize)
    ensures
        r == sample_count(state@),
{
    match &state.buffer {
        Some(b) => b.len(),
        None => 0,
    }
}

/// Whether capture is running.
pub fn is_capturing<T>(state: &CaptureState<T>) -> (r: bool)
    ensures
        r == state@.active,
{
    state.active
}

/// The first check of starting a capture: refused while one is running.
pub fn ensure_not_capturing<T>(state: &CaptureState<T>) -> (r: Result<(), String>)
    ensures
        r is Err <==> state@.active,
        r matches Err(e) ==> e@ == "Capture already active"@,
{
    if state.active {
        Err(String::from_str("Capture already active"))
    } else {
        Ok(())
    }
}

/// Starts recording on a device opened at `sample_rate`: the rate is kept,
/// then, if the buffer has been set up, capture runs from an empty
/// recording; without a buffer the start is refused.
pub fn begin_capture<T>(state: &mut CaptureState<T>, sample_rate: u32) -> (r: Result<(), String>)
    ensures
        final(state)@.input_sample_rate == sample_rate,
        r is Ok <==> old(state)@.buffer is Some,
        r matches Err(e) ==> e@ == "Audio buffer not initialized"@,
        r is Ok ==> final(state)@.active && final(state)@.buffer == Some(Seq::<T>::empty()),
        r is Err ==> final(state)@.active == old(state)@.active && final(state)@.buffer is None,
{
    state.input_sample_rate = sample_rate;
    if state.buffer.is_none() {
        return Err(String::from_str("Audio buffer not initialized"));
    }
    state.active = true;
    state.buffer = Some(Vec::new());
    Ok(())
}

/// Takes a chunk of mono samples from the input stream: appended to the
/// recording while capture runs, dropped otherwise.
pub fn record_samples<T>(state: &mut CaptureState<T>, chunk: Vec<T>)
    ensures
        final(state)@ == after_chunk(old(state)@, chunk@),
{
    let mut chunk = chunk;
    if state.active {
        match &mut state.buffer {
            Some(b) => {
                b.append(&mut chunk);
            },
            None => {},
        }
    }
}

/// Marks capture as stopped without a reply (the stream failed or ended).
pub fn abort_capture<T>(state: &mut CaptureState<T>)
    ensures
        !final(state)@.active,
        final(state)@.buffer == old(state)@.buffer,
        final(state)@.input_sample_rate == old(state)@.input_sample_rate,
{
    state.active = false;
}

/// Stops a running capture and reports how many samples were recorded;
/// refused, with nothing changed, when no capture runs.
pub fn end_capture<T>(state: &mut CaptureState<T>) -> (r: Result<usize, String>)
    ensures
        r is Ok <==> old(state)@.active,
        r matches Ok(n) ==> n == sample_count(old(state)@) && !final(state)@.active
            && final(state)@.buffer == old(state)@.buffer
            && final(state)@.input_sample_rate == old(state)@.input_sample_rate,
        r matches Err(e) ==> e@ == "Capture not active"@ && final(state)@ == old(state)@,
{
    if !state.active {
        return Err(String::from_str("Capture not active"));
    }
    state.active = false;
    Ok(get_audio_buffer_samples(state))
}

/// The recording to use as voice reference for synthesis: the recorded
/// samples when there are more than `REFERENCE_MIN_SAMPLES` of them.
pub fn reference_recording<T>(state: &CaptureState<T>) -> (r: Option<&Vec<T>>)
    ensures
        match r {
            Some(b) => state@.buffer == Some(b@) && b@.len() > REFERENCE_MIN_SAMPLES,
            None => sample_count(state@) <= REFERENCE_MIN_SAMPLES,
        },
{
    match &state.buffer {
        Some(b) => if b.len() > REFERENCE_MIN_SAMPLES {
            Some(b)
        } else {
            None
        },
        None => None,
    }
}

/// Recording keeps everything: once capture has started from an empty
/// buffer, the stream's chunks, in the order they arrive, make up the whole
/// recording, and the count reported on stop is their total length.
pub proof fn lemma_recording_is_concatenation<T>(start: CaptureView<T>, chunks: Seq<Seq<T>>)
    requires
        start.active,
        start.buffer == Some(Seq::<T>::empty()),
    ensures
        after_chunks(start, chunks).active,
        after_chunks(start, chunks).input_sample_rate == start.input_sample_rate,
        after_chunks(start, chunks).buffer == Some(chunks.flatten()),
        sample_count(after_chunks(start, chunks)) == chunks.flatten().len(),
    decreases chunks.len(),
{
    broadcast use Seq::lemma_flatten_push;

    if chunks.len() == 0 {
    } else {
        lemma_recording_is_concatenation(start, chunks.drop_last());
        assert(chunks.drop_last().push(chunks.last()) =~= chunks);
    }
}

/// Samples per bar of the level meter for a block of `len` samples:
/// `max(len / 32, 1)`.
pub open spec fn bin_size(len: nat) -> nat {
    if len / 32 > 1 {
        len / 32
    } else {
        1
    }
}

/// The samples that bar `i` summarises for a block of `len` samples: the
/// `i`-th run of `bin_size(len)` samples, cut at `len`; `None` when it would
/// start past the data (the bar then drops to zero).
pub open spec fn bin_range(len: nat, i: nat) -> Option<(int, int)> {
    let first = i * bin_size(len);
    if first >= len {
        None
    } else if (i + 1) * bin_size(len) < len {
        Some((first as int, ((i + 1) * bin_size(len)) as int))
    } else {
        Some((first as int, len as int))
    }
}

/// The range of samples bar `i` of the level meter summarises.
pub fn level_bin_range(len: usize, i: usize) -> (r: Option<(usize, usize)>)
    requires
        i < LEVEL_BINS,
    ensures
        match r {
            Some((a, b)) => bin_range(len as nat, i as nat) == Some((a as int, b as int)),
            None => bin_range(len as nat, i as nat) is None,
        },
{
    let size: usize = if len / 32 > 1 {
        len / 32
    } else {
        1
    };
    proof {
        if len / 32 > 1 {
            assert(32 * (len / 32) <= len) by (nonlinear_arith);
        }
        assert((i + 1) * size <= 32 * size) by (nonlinear_arith)
            requires
                i < 32,
                size >= 1,
        ;
        assert((i + 1) * size == i * size + size) by (nonlinear_arith);
    }
    let first = i * size;
    if first >= len {
        return None;
    }
    let last = if (i + 1) * size < len {
        (i + 1) * size
    } else {
        len
    };
    Some((first, last))
}

/// The bars of the level meter summarise separate stretches of the block, in
/// order, each non-empty and inside the block.
pub proof fn lemma_level_bins_ordered(len: nat, i: nat, j: nat)
    requires
        i < j < LEVEL_BINS,
        bin_range(len, i) is Some,
        bin_range(len, j) is Some,
    ensures
        ({
            let first = bin_range(len, i)->0;
            let second = bin_range(len, j)->0;
            0 <= first.0 < first.1 <= second.0 < second.1 <= len
        }),
{
    let s = bin_size(len);
    assert((i + 1) * s <= j * s) by (nonlinear_arith)
        requires
            i + 1 <= j,
    ;
    assert((i + 1) * s == i * s + s) by (nonlinear_arith);
    assert((j + 1) * s == j * s + s) by (nonlinear_arith);
}

} // verus!
