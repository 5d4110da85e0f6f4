//! Speech recognition: how audio is sent, and how its replies become events.

use vstd::prelude::*;
use vstd::string::*;

use crate::events::{AppEvent, EventView};
use crate::text;

verus! {

/// A request to open a connection for live recognition.
#[derive(Debug)]
pub struct ListenRequest {
    pub url: String,
    pub authorization: String,
}

/// The request to recognise one channel of 16-bit samples at `sample_rate`.
pub fn listen_request(api_key: &str, sample_rate: u32) -> (request: ListenRequest)
    ensures
        request.url@ == "wss://api.deepgram.com/v1/listen?encoding=linear16&sample_rate="@
            + text::decimal(sample_rate as nat)
            + "&channels=1&model=nova-2&language=en-IN&endpointing=300&utterance_end_ms=1000&interim_results=true"@,
        request.authorization@ == "Token "@ + api_key@,
{
    let rate = text::decimal_of(sample_rate);
    ListenRequest {
        url: "wss://api.deepgram.com/v1/listen?encoding=linear16&sample_rate=".to_owned().concat(
            rate.as_str(),
        ).concat(
            "&channels=1&model=nova-2&language=en-IN&endpointing=300&utterance_end_ms=1000&interim_results=true",
        ),
        authorization: "Token ".to_owned().concat(api_key),
    }
}

/// A reply of the recognition service.
#[derive(Debug)]
pub struct DgResponse {
    pub channel: Option<DgChannel>,
    pub is_final: Option<bool>,
    pub speech_final: Option<bool>,
}

/// What was heard on one channel.
#[derive(Debug)]
pub struct DgChannel {
    pub alternatives: Vec<DgAlternative>,
}

/// One way to understand what was heard; the first is the most likely.
#[derive(Debug)]
pub struct DgAlternative {
    pub transcript: String,
}

impl DgResponse {
    /// What was most likely said, without surrounding white space; none where
    /// nothing was said.
    pub open spec fn heard(self) -> Option<Seq<char>> {
        match self.channel {
            Some(channel) => if channel.alternatives@.len() > 0 {
                let words = text::trim(channel.alternatives@[0].transcript@);
                if words.len() > 0 {
                    Some(words)
                } else {
                    None
                }
            } else {
                None
            },
            None => None,
        }
    }

    /// Whether the service will not revise this reply.
    pub open spec fn is_settled(self) -> bool {
        self.speech_final == Some(true) || self.is_final == Some(true)
    }

    /// What this reply reports.
    pub open spec fn reports(self) -> Option<EventView> {
        match self.heard() {
            Some(words) => Some(
                if self.is_settled() {
                    EventView::TranscriptFinal(words)
                } else {
                    EventView::TranscriptPartial(words)
                },
            ),
            None => None,
        }
    }
}

/// What a reply reports. A transcript that is reported is never empty.
pub fn transcript_event(response: &DgResponse) -> (event: Option<AppEvent>)
    ensures
        match event {
            Some(e) => response.reports() == Some(e@),
            None => response.reports() is None,
        },
        match event {
            Some(AppEvent::TranscriptFinal(t)) => t@.len() > 0,
            Some(AppEvent::TranscriptPartial(t)) => t@.len() > 0,
            Some(_) => false,
            None => true,
        },
{
    let channel = match &response.channel {
        Some(channel) => channel,
        None => return None,
    };
    if channel.alternatives.len() == 0 {
        return None;
    }
    let words = text::trim_text(channel.alternatives[0].transcript.as_str());
    if words.as_str().is_empty() {
        return None;
    }
    let speech_final = match response.speech_final {
        Some(settled) => settled,
        None => false,
    };
    let is_final = match response.is_final {
        Some(settled) => settled,
        None => false,
    };
    if speech_final || is_final {
        Some(AppEvent::TranscriptFinal(words))
    } else {
        Some(AppEvent::TranscriptPartial(words))
    }
}

/// What a reply reports as heard is not empty, and no white space surrounds it.
pub proof fn law_transcripts_are_trimmed(response: DgResponse)
    ensures
        match response.heard() {
            Some(words) => {
                &&& words.len() > 0
                &&& !text::is_space(words.first())
                &&& !text::is_space(words.last())
            },
            None => true,
        },
{
    match response.channel {
        Some(channel) => {
            text::lemma_trim_ends(channel.alternatives@[0].transcript@);
        },
        None => {},
    }
}

/// The low byte of a sample.
pub open spec fn low_byte(sample: i16) -> u8 {
    (sample as u16 & 0xff) as u8
}

/// The high byte of a sample.
pub open spec fn high_byte(sample: i16) -> u8 {
    (sample as u16 >> 8) as u8
}

/// The sample with these bytes.
pub open spec fn sample_of(low: u8, high: u8) -> i16 {
    (low as u16 | ((high as u16) << 8)) as i16
}

/// The bytes of samples: of each its low byte, then its high byte.
pub open spec fn pcm(samples: Seq<i16>) -> Seq<u8> {
    Seq::new(
        2 * samples.len(),
        |i: int|
            if i % 2 == 0 {
                low_byte(samples[i / 2])
            } else {
                high_byte(samples[i / 2])
            },
    )
}

/// The bytes of samples in little-endian order.
pub fn pcm_bytes(samples: &[i16]) -> (bytes: Vec<u8>)
    ensures
        bytes@ == pcm(samples@),
{
    let mut bytes: Vec<u8> = Vec::new();
    let mut i: usize = 0;
    while i < samples.len()
        invariant
            i <= samples@.len(),
            bytes@ =~= pcm(samples@.take(i as int)),
        decreases samples@.len() - i,
    {
        let bits: u16 = samples[i] as u16;
        bytes.push((bits & 0xff) as u8);
        bytes.push((bits >> 8) as u8);
        i = i + 1;
    }
    assert(samples@.take(i as int) =~= samples@);
    bytes
}

/// The samples can be read back from their bytes.
pub proof fn law_samples_survive(samples: Seq<i16>)
    ensures
        pcm(samples).len() == 2 * samples.len(),
        forall|i: int|
            0 <= i < samples.len() ==> #[trigger] samples[i] == sample_of(
                pcm(samples)[2 * i],
                pcm(samples)[2 * i + 1],
            ),
{
    assert forall|i: int| 0 <= i < samples.len() implies #[trigger] samples[i] == sample_of(
        pcm(samples)[2 * i],
        pcm(samples)[2 * i + 1],
    ) by {
        let s = samples[i];
        assert(s == (((s as u16 & 0xff) as u8) as u16 | ((((s as u16 >> 8) as u8) as u16) << 8))
            as i16) by (bit_vector);
    }
}

/// What the sender of audio learns.
#[derive(Debug)]
pub enum AudioEvent {
    /// More samples were recorded.
    Samples(Vec<i16>),
    /// Recording has stopped.
    Stopped,
    /// The last samples could not be sent.
    SendFailed,
}

/// The model of an `AudioEvent`.
#[verifier::ext_equal]
pub enum AudioView {
    Samples(Seq<i16>),
    Stopped,
    SendFailed,
}

impl View for AudioEvent {
    type V = AudioView;

    open spec fn view(&self) -> AudioView {
        match self {
            AudioEvent::Samples(samples) => AudioView::Samples(samples@),
            AudioEvent::Stopped => AudioView::Stopped,
            AudioEvent::SendFailed => AudioView::SendFailed,
        }
    }
}

/// What the sender of audio does next.
#[derive(Debug)]
pub enum SendAction {
    /// Send these bytes and wait for more samples.
    Send(Vec<u8>),
    /// Tell the service that there is no more, so that it settles the last
    /// transcript, and end.
    Close,
}

/// The model of a `SendAction`.
#[verifier::ext_equal]
pub enum FrameView {
    Send(Seq<u8>),
    Close,
}

impl View for SendAction {
    type V = FrameView;

    open spec fn view(&self) -> FrameView {
        match self {
            SendAction::Send(bytes) => FrameView::Send(bytes@),
            SendAction::Close => FrameView::Close,
        }
    }
}

/// The sender of audio: whether it has told the service that there is no more.
#[derive(Debug)]
pub struct AudioSender {
    pub ended: bool,
}

/// Whether the sender has ended after an event, and what it does. A connection on
/// which audio cannot be sent is closed as at the end of a recording. Nothing is
/// done after that.
pub open spec fn stepped(ended: bool, event: AudioView) -> (bool, Option<FrameView>) {
    if ended {
        (true, None)
    } else {
        match event {
            AudioView::Samples(samples) => (false, Some(FrameView::Send(pcm(samples)))),
            AudioView::Stopped => (true, Some(FrameView::Close)),
            AudioView::SendFailed => (true, Some(FrameView::Close)),
        }
    }
}

impl AudioSender {
    /// A sender that has not ended.
    pub fn new() -> (sender: AudioSender)
        ensures
            !sender.ended,
    {
        AudioSender { ended: false }
    }

    /// Takes an event, and says what is to be done.
    pub fn send_step(&mut self, event: AudioEvent) -> (action: Option<SendAction>)
        ensures
            final(self).ended == stepped(old(self).ended, event@).0,
            match action {
                Some(a) => stepped(old(self).ended, event@).1 == Some(a@),
                None => stepped(old(self).ended, event@).1 is None,
            },
    {
        if self.ended {
            return None;
        }
        match event {
            AudioEvent::Samples(samples) => Some(SendAction::Send(pcm_bytes(samples.as_slice()))),
            AudioEvent::Stopped => {
                self.ended = true;
                Some(SendAction::Close)
            },
            AudioEvent::SendFailed => {
                self.ended = true;
                Some(SendAction::Close)
            },
        }
    }
}

/// All that a sender does on these events.
pub open spec fn frames(ended: bool, events: Seq<AudioView>) -> Seq<FrameView>
    decreases events.len(),
{
    if events.len() == 0 {
        Seq::empty()
    } else {
        let (next, frame) = stepped(ended, events.first());
        let rest = frames(next, events.drop_first());
        match frame {
            Some(f) => seq![f] + rest,
            None => rest,
        }
    }
}

/// The events of samples that are recorded piece by piece.
pub open spec fn recorded(samples: Seq<Seq<i16>>) -> Seq<AudioView> {
    samples.map_values(|s: Seq<i16>| AudioView::Samples(s))
}

/// The frames with the bytes of these samples.
pub open spec fn streamed(samples: Seq<Seq<i16>>) -> Seq<FrameView> {
    samples.map_values(|s: Seq<i16>| FrameView::Send(pcm(s)))
}

proof fn lemma_nothing_after_the_end(events: Seq<AudioView>)
    ensures
        frames(true, events) == Seq::<FrameView>::empty(),
    decreases events.len(),
{
    if events.len() > 0 {
        lemma_nothing_after_the_end(events.drop_first());
    }
}

proof fn lemma_frames_of_a_recording(samples: Seq<Seq<i16>>, rest: Seq<AudioView>)
    ensures
        frames(false, recorded(samples) + rest) == streamed(samples) + frames(false, rest),
    decreases samples.len(),
{
    let events = recorded(samples) + rest;
    if samples.len() == 0 {
        assert(events =~= rest);
        assert(streamed(samples) + frames(false, rest) =~= frames(false, rest));
    } else {
        let less = samples.drop_first();
        lemma_frames_of_a_recording(less, rest);
        assert(events.drop_first() =~= recorded(less) + rest);
        assert(events.first() == AudioView::Samples(samples.first()));
        assert(streamed(samples) + frames(false, rest) =~= seq![
            FrameView::Send(pcm(samples.first())),
        ] + (streamed(less) + frames(false, rest)));
    }
}

/// While nothing ends the recording, all that is recorded is sent in its order, and
/// the connection stays open.
pub proof fn law_audio_is_streamed(samples: Seq<Seq<i16>>)
    ensures
        frames(false, recorded(samples)) == streamed(samples),
        frames(false, recorded(samples)).len() == samples.len(),
        forall|i: int|
            0 <= i < samples.len() ==> #[trigger] frames(false, recorded(samples))[i]
                == FrameView::Send(pcm(samples[i])),
{
    lemma_frames_of_a_recording(samples, Seq::empty());
    assert(recorded(samples) + Seq::<AudioView>::empty() =~= recorded(samples));
    assert(streamed(samples) + frames(false, Seq::empty()) =~= streamed(samples));
}

/// When the recording stops or a send fails, the connection is closed once, after
/// all that was recorded before, and nothing follows, whatever happens then.
pub proof fn law_audio_is_closed_once(
    samples: Seq<Seq<i16>>,
    end: AudioView,
    later: Seq<AudioView>,
)
    requires
        !(end is Samples),
    ensures
        frames(false, recorded(samples).push(end) + later) == streamed(samples).push(
            FrameView::Close,
        ),
        frames(false, recorded(samples).push(end) + later).len() == samples.len() + 1,
        forall|i: int|
            0 <= i < samples.len() ==> #[trigger] frames(
                false,
                recorded(samples).push(end) + later,
            )[i] == FrameView::Send(pcm(samples[i])),
        frames(false, recorded(samples).push(end) + later)[samples.len() as int]
            == FrameView::Close,
{
    let rest = seq![end] + later;
    lemma_frames_of_a_recording(samples, rest);
    lemma_nothing_after_the_end(later);
    assert(recorded(samples).push(end) + later =~= recorded(samples) + rest);
    assert(rest.drop_first() =~= later);
    assert(frames(false, rest) =~= seq![FrameView::Close]);
    assert(streamed(samples) + seq![FrameView::Close] =~= streamed(samples).push(
        FrameView::Close,
    ));
}

/// What a reply with words reports: the words of its first alternative, without the
/// white space around them and otherwise as they are. They are final where either
/// mark says so, whatever the other says, and partial where neither does.
pub proof fn law_either_mark_settles_a_reply(
    channel: DgChannel,
    is_final: Option<bool>,
    speech_final: Option<bool>,
    before: Seq<char>,
    words: Seq<char>,
    after: Seq<char>,
)
    requires
        channel.alternatives@.len() > 0,
        channel.alternatives@[0].transcript@ == before + words + after,
        forall|i: int| 0 <= i < before.len() ==> text::is_space(#[trigger] before[i]),
        forall|i: int| 0 <= i < after.len() ==> text::is_space(#[trigger] after[i]),
        words.len() > 0,
        !text::is_space(words[0]) && !text::is_space(words[words.len() - 1]),
    ensures
        ({
            let response = DgResponse { channel: Some(channel), is_final, speech_final };
            &&& is_final == Some(true) ==> response.reports() == Some(
                EventView::TranscriptFinal(words),
            )
            &&& speech_final == Some(true) ==> response.reports() == Some(
                EventView::TranscriptFinal(words),
            )
            &&& is_final != Some(true) && speech_final != Some(true) ==> response.reports() == Some(
                EventView::TranscriptPartial(words),
            )
        }),
{
    text::law_trim_keeps_what_stands_between(before, words, after);
}

/// A reply without words reports nothing, whatever its marks: one without a channel
/// or an alternative, or whose first alternative is white space.
pub proof fn law_silence_reports_nothing(response: DgResponse)
    requires
        response.channel matches Some(channel) ==> channel.alternatives@.len() == 0 || forall|i: int|
            0 <= i < channel.alternatives@[0].transcript@.len() ==> text::is_space(
                #[trigger] channel.alternatives@[0].transcript@[i],
            ),
    ensures
        response.reports() is None,
{
    match response.channel {
        Some(channel) => {
            if channel.alternatives@.len() > 0 {
                let heard = channel.alternatives@[0].transcript@;
                let none = Seq::<char>::empty();
                assert(none + none + heard =~= heard);
                text::law_trim_keeps_what_stands_between(none, none, heard);
            }
        },
        None => {},
    }
}

/// The bytes of a sample are its value to the base 256, the lower digit first, a
/// negative one as its two's complement.
pub proof fn law_samples_are_little_endian(samples: Seq<i16>, i: int)
    requires
        0 <= i < samples.len(),
    ensures
        pcm(samples).len() == 2 * samples.len(),
        pcm(samples)[2 * i] + 256 * pcm(samples)[2 * i + 1] == if samples[i] >= 0 {
            samples[i] as int
        } else {
            samples[i] + 0x1_0000
        },
{
    let s = samples[i];
    let low = (s as u16 & 0xff) as u8;
    let high = (s as u16 >> 8) as u8;
    assert(low as u32 + 256 * (high as u32) == s as u16 as u32) by (bit_vector)
        requires
            low == (s as u16 & 0xff) as u8,
            high == (s as u16 >> 8) as u8,
    ;
    assert(s >= 0 ==> s as u16 as i32 == s as i32) by (bit_vector);
    assert(s < 0 ==> s as u16 as i32 == s as i32 + 0x1_0000) by (bit_vector);
}

/// Samples are sent at once, all of them, even where there are none; only the end of
/// the recording and a failure end the sender, and nothing brings it back.
pub proof fn law_samples_are_sent_at_once(samples: Seq<i16>, event: AudioView)
    ensures
        stepped(false, AudioView::Samples(samples)) == (
            false,
            Some(FrameView::Send(pcm(samples))),
        ),
        !(event is Samples) ==> stepped(false, event) == (true, Some(FrameView::Close)),
        stepped(true, event) == (true, None::<FrameView>),
{
}

/// The address of a request names the sample rate as a number without leading zeros,
/// and its authorization ends with the key as it is.
pub proof fn law_request_names_the_rate(
    api_key: &str,
    sample_rate: u32,
    request: ListenRequest,
    numeral: Seq<char>,
)
    requires
        call_ensures(listen_request, (api_key, sample_rate), request),
        numeral == text::decimal(sample_rate as nat),
    ensures
        text::value_of(numeral) == sample_rate,
        request.url@.len() > numeral.len(),
        request.url@
            == "wss://api.deepgram.com/v1/listen?encoding=linear16&sample_rate="@ + numeral
            + "&channels=1&model=nova-2&language=en-IN&endpointing=300&utterance_end_ms=1000&interim_results=true"@,
        request.authorization@.skip(request.authorization@.len() - api_key@.len()) == api_key@,
{
    text::law_numerals_are_read_back(sample_rate as nat);
    reveal_strlit("wss://api.deepgram.com/v1/listen?encoding=linear16&sample_rate=");
    reveal_strlit("Token ");
    assert(("Token "@ + api_key@).skip(6) =~= api_key@);
}

/// What is reported of a reply with words holds them as they are, and is final
/// exactly where either mark says so.
pub proof fn law_reported_words_are_verbatim(
    response: &DgResponse,
    event: Option<AppEvent>,
    words: Seq<char>,
)
    requires
        call_ensures(transcript_event, (response,), event),
        response.channel is Some,
        response.channel->0.alternatives@.len() > 0,
        response.channel->0.alternatives@[0].transcript@ == words,
        words.len() > 0,
        !text::is_space(words[0]) && !text::is_space(words[words.len() - 1]),
    ensures
        event is Some,
        response.is_final == Some(true) || response.speech_final == Some(true) ==> (
        event->0 matches AppEvent::TranscriptFinal(t) && t@ == words),
        response.is_final != Some(true) && response.speech_final != Some(true) ==> (
        event->0 matches AppEvent::TranscriptPartial(t) && t@ == words),
{
    let none = Seq::<char>::empty();
    assert(none + words + none =~= words);
    law_either_mark_settles_a_reply(
        response.channel->0,
        response.is_final,
        response.speech_final,
        none,
        words,
        none,
    );
}

} // verus!
