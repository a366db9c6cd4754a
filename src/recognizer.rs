use vstd::prelude::*;

verus! {

/// Samples per second that speech recognition expects.
pub const AUDIO_SAMPLE_RATE: usize = 16000;

/// Transcribed non-speech is written `[SOMETHING]` or `(SOMETHING)`.
pub open spec fn spec_is_noise(t: Seq<char>) -> bool {
    t.len() > 0 && ((t[0] == '[' && t.last() == ']') || (t[0] == '(' && t.last() == ')'))
}

/// Whether a transcription is a non-speech marker rather than words.
pub fn is_noise(text: &str) -> (r: bool)
    ensures
        r == spec_is_noise(text@),
{
    let n = text.unicode_len();
    if n == 0 {
        return false;
    }
    let first = text.get_char(0);
    let last = text.get_char(n - 1);
    (first == '[' && last == ']') || (first == '(' && last == ')')
}

/// Audio shorter than one second gets one second of silence appended before
/// recognition.
pub fn pad_for_recognition(audio: &[i16]) -> (r: Vec<i16>)
    ensures
        audio@.len() < AUDIO_SAMPLE_RATE ==> r@ == audio@ + Seq::new(
            AUDIO_SAMPLE_RATE as nat,
            |i: int| 0i16,
        ),
        audio@.len() >= AUDIO_SAMPLE_RATE ==> r@ == audio@,
{
    let mut r: Vec<i16> = Vec::new();
    let mut i: usize = 0;
    while i < audio.len()
        invariant
            i <= audio@.len(),
            r@ == audio@.take(i as int),
        decreases audio@.len() - i,
    {
        r.push(audio[i]);
        i += 1;
        assert(r@ =~= audio@.take(i as int));
    }
    assert(audio@.take(audio@.len() as int) =~= audio@);
    if audio.len() < AUDIO_SAMPLE_RATE {
        let mut j: usize = 0;
        while j < AUDIO_SAMPLE_RATE
            invariant
                j <= AUDIO_SAMPLE_RATE,
                audio@.len() < AUDIO_SAMPLE_RATE,
                r@ == audio@ + Seq::new(j as nat, |i: int| 0i16),
            decreases AUDIO_SAMPLE_RATE - j,
        {
            r.push(0);
            j += 1;
            assert(r@ =~= audio@ + Seq::new(j as nat, |i: int| 0i16));
        }
    }
    r
}

} // verus!
