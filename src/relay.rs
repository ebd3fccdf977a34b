//! The stream relay: turns an upstream body of `data: <json>` lines into the
//! ordered events forwarded downstream, always closed by one end marker.
use vstd::prelude::*;
use crate::json::{
    compact_json, json_compact, json_error_text, json_parses, json_string_literal, json_type_tag,
    parse_error_text, string_literal, type_tag,
};
use crate::text::{
    chars_of, lemma_lines_join, lemma_lines_single, line_ranges, lines, matches_at, opt_view,
    string_from, trim, trim_range,
};

verus! {

/// The frame prefix `data: `.
pub open spec fn data_prefix() -> Seq<char> {
    seq!['d', 'a', 't', 'a', ':', ' ']
}

/// The end-of-stream token `[DONE]`.
pub open spec fn done_token() -> Seq<char> {
    seq!['[', 'D', 'O', 'N', 'E', ']']
}

/// A trimmed line that opens with the frame prefix.
pub open spec fn is_data_line(t: Seq<char>) -> bool {
    t.len() >= 6 && t.take(6) == data_prefix()
}

/// A data line whose remainder trims to `[DONE]` (`data: [DONE]` among
/// them): it ends the scan.
pub open spec fn is_stop_line(line: Seq<char>) -> bool {
    let t = trim(line);
    is_data_line(t) && trim(t.skip(6)) == done_token()
}

/// A data line that carries a frame.
pub open spec fn is_frame_line(line: Seq<char>) -> bool {
    let t = trim(line);
    is_data_line(t) && trim(t.skip(6)) != done_token()
}

/// What follows the frame prefix on a trimmed line.
pub open spec fn payload(line: Seq<char>) -> Seq<char> {
    trim(line).skip(6)
}

/// The payloads of the frame lines, in order, up to the first stop line.
pub open spec fn frames_of_lines(ls: Seq<Seq<char>>) -> Seq<Seq<char>>
    decreases ls.len(),
{
    if ls.len() == 0 {
        Seq::empty()
    } else if is_stop_line(ls[0]) {
        Seq::empty()
    } else if is_frame_line(ls[0]) {
        seq![payload(ls[0])] + frames_of_lines(ls.drop_first())
    } else {
        frames_of_lines(ls.drop_first())
    }
}

/// The frame payloads of an upstream body.
pub open spec fn frames(text: Seq<char>) -> Seq<Seq<char>> {
    frames_of_lines(lines(text))
}

/// The recognised discriminators of a frame; the classification is for
/// observability only and never decides whether a frame is forwarded.
#[derive(Clone, Copy, Debug, PartialEq, Eq, Structural)]
pub enum FrameKind {
    ThinkingUpdate,
    FinalResponse,
    Metadata,
    Other,
    Untagged,
}

/// The kind that a frame's `"type"` member, if a string, gives.
pub open spec fn kind_of(tag: Option<Seq<char>>) -> FrameKind {
    match tag {
        None => FrameKind::Untagged,
        Some(t) => if t == "thinking_update"@ {
            FrameKind::ThinkingUpdate
        } else if t == "final_response"@ {
            FrameKind::FinalResponse
        } else if t == "metadata"@ {
            FrameKind::Metadata
        } else {
            FrameKind::Other
        },
    }
}

impl FrameKind {
    pub fn of(tag: &Option<String>) -> (r: FrameKind)
        ensures
            r == kind_of(opt_view(*tag)),
    {
        match tag {
            None => FrameKind::Untagged,
            Some(t) => {
                if *t == String::from_str("thinking_update") {
                    FrameKind::ThinkingUpdate
                } else if *t == String::from_str("final_response") {
                    FrameKind::FinalResponse
                } else if *t == String::from_str("metadata") {
                    FrameKind::Metadata
                } else {
                    FrameKind::Other
                }
            },
        }
    }
}

/// One event of the relayed stream.
#[derive(Debug)]
pub enum RelayEvent {
    /// A frame that parsed, forwarded as its JSON text.
    Forward { kind: FrameKind, data: String },
    /// An informational `thinking_update` frame standing for one that did not parse.
    Diagnostic { data: String },
    /// The end marker, always last.
    Done,
}

/// What a frame's payload turned out to be.
#[derive(Debug)]
pub enum Decoded {
    Parsed { tag: Option<String>, json: String },
    Malformed { reason: String },
}

/// The JSON text of the diagnostic frame for a parse failure described by
/// `reason`: `{"type":"thinking_update","content":<message>}`.
pub open spec fn diagnostic_payload(reason: Seq<char>) -> Seq<char> {
    "{\"type\":\"thinking_update\",\"content\":"@ + json_string_literal(
        "Error parsing stream data: "@ + reason,
    ) + "}"@
}

/// `e` is the event that relays the decoded frame `d`.
pub open spec fn relays(e: RelayEvent, d: Decoded) -> bool {
    match d {
        Decoded::Parsed { tag, json } => match e {
            RelayEvent::Forward { kind, data } => kind == kind_of(opt_view(tag)) && data@ == json@,
            _ => false,
        },
        Decoded::Malformed { reason } => match e {
            RelayEvent::Diagnostic { data } => data@ == diagnostic_payload(reason@),
            _ => false,
        },
    }
}

/// `d` is what the frame payload `frame` decodes to: its compact JSON text
/// and `"type"` tag when it parses, else the description of the failure.
pub open spec fn decoded_from(d: Decoded, frame: Seq<char>) -> bool {
    match d {
        Decoded::Parsed { tag, json } => {
            &&& json_parses(frame)
            &&& opt_view(tag) == json_type_tag(frame)
            &&& json@ == json_compact(frame)
        },
        Decoded::Malformed { reason } => !json_parses(frame) && reason@ == json_error_text(frame),
    }
}

/// What an event carries, as plain values.
pub enum EventView {
    Forward(FrameKind, Seq<char>),
    Diagnostic(Seq<char>),
    Done,
}

pub open spec fn event_view(e: RelayEvent) -> EventView {
    match e {
        RelayEvent::Forward { kind, data } => EventView::Forward(kind, data@),
        RelayEvent::Diagnostic { data } => EventView::Diagnostic(data@),
        RelayEvent::Done => EventView::Done,
    }
}

/// The event that answers the frame payload `frame`: the frame re-serialised
/// and classified by its `"type"` tag when it parses, else the diagnostic
/// for its parse failure.
pub open spec fn answer(frame: Seq<char>) -> EventView {
    if json_parses(frame) {
        EventView::Forward(kind_of(json_type_tag(frame)), json_compact(frame))
    } else {
        EventView::Diagnostic(diagnostic_payload(json_error_text(frame)))
    }
}

pub open spec fn answers(e: RelayEvent, frame: Seq<char>) -> bool {
    event_view(e) == answer(frame)
}

/// `r` is a relay of `text`: for each frame, in order, the event that
/// answers it, then the end marker, which appears nowhere else.
pub open spec fn relay_of(text: Seq<char>, r: Seq<RelayEvent>) -> bool {
    let fs = frames(text);
    &&& r.len() == fs.len() + 1
    &&& r.last() is Done
    &&& forall|i: int| 0 <= i < fs.len() ==> answers(#[trigger] r[i], fs[i])
}

impl RelayEvent {
    /// The text carried downstream for this event.
    pub fn data_text(&self) -> (r: String)
        ensures
            match self {
                RelayEvent::Forward { data, .. } => r@ == data@,
                RelayEvent::Diagnostic { data } => r@ == data@,
                RelayEvent::Done => r@ == "[DONE]"@,
            },
    {
        match self {
            RelayEvent::Forward { data, .. } => data.clone(),
            RelayEvent::Diagnostic { data } => data.clone(),
            RelayEvent::Done => String::from_str("[DONE]"),
        }
    }
}

/// The event for one decoded frame.
pub fn event_for(d: Decoded) -> (e: RelayEvent)
    ensures
        relays(e, d),
{
    match d {
        Decoded::Parsed { tag, json } => {
            let kind = FrameKind::of(&tag);
            RelayEvent::Forward { kind, data: json }
        },
        Decoded::Malformed { reason } => {
            let mut message = String::from_str("Error parsing stream data: ");
            message.append(reason.as_str());
            let mut data = String::from_str("{\"type\":\"thinking_update\",\"content\":");
            data.append(string_literal(message.as_str()).as_str());
            data.append("}");
            RelayEvent::Diagnostic { data }
        },
    }
}

/// Parses one frame payload.
pub fn decode(frame: &str) -> (d: Decoded)
    ensures
        decoded_from(d, frame@),
{
    match compact_json(frame) {
        Some(json) => Decoded::Parsed { tag: type_tag(frame), json },
        None => match parse_error_text(frame) {
            Some(reason) => Decoded::Malformed { reason },
            None => Decoded::Malformed { reason: String::new() },
        },
    }
}

/// What one line of the body asks of the scan.
enum LineStep {
    Skip,
    Stop,
    Frame(usize, usize),
}

/// Classifies the line `v[lo..hi]`; a frame comes with the bounds of its payload.
fn line_step(v: &Vec<char>, lo: usize, hi: usize) -> (r: LineStep)
    requires
        lo <= hi <= v.len(),
    ensures
        ({
            let line = v@.subrange(lo as int, hi as int);
            match r {
                LineStep::Skip => !is_stop_line(line) && !is_frame_line(line),
                LineStep::Stop => is_stop_line(line),
                LineStep::Frame(a, b) => {
                    &&& is_frame_line(line)
                    &&& a <= b <= v.len()
                    &&& v@.subrange(a as int, b as int) == payload(line)
                },
            }
        }),
{
    let ghost line = v@.subrange(lo as int, hi as int);
    let prefix: [char; 6] = ['d', 'a', 't', 'a', ':', ' '];
    let done: [char; 6] = ['[', 'D', 'O', 'N', 'E', ']'];
    assert(prefix@ =~= data_prefix());
    assert(done@ =~= done_token());
    let (a, b) = trim_range(v, lo, hi);
    let ghost t = v@.subrange(a as int, b as int);
    assert(t == trim(line));
    if b - a < 6 || !matches_at(v, a, &prefix) {
        assert(!is_data_line(t)) by {
            if b - a >= 6 {
                assert(t.take(6) =~= v@.subrange(a as int, a + 6));
            }
        }
        return LineStep::Skip;
    }
    assert(t.take(6) =~= v@.subrange(a as int, a + 6));
    assert(is_data_line(t));
    let (c, d) = trim_range(v, a + 6, b);
    assert(t.skip(6) =~= v@.subrange(a + 6, b as int));
    if d - c == 6 && matches_at(v, c, &done) {
        assert(v@.subrange(c as int, d as int) =~= done_token());
        LineStep::Stop
    } else {
        assert(v@.subrange(c as int, d as int) != done_token());
        LineStep::Frame(a + 6, b)
    }
}

proof fn lemma_relays_answers(e: RelayEvent, d: Decoded, frame: Seq<char>)
    requires
        relays(e, d),
        decoded_from(d, frame),
    ensures
        answers(e, frame),
{
}

/// Relays an upstream body: each frame line, in order, becomes one event
/// (the frame's compact JSON text, classified by its `"type"` tag, when its
/// payload parses; the diagnostic for its parse failure when it does not),
/// the scan ends at the first stop line or at the end of the body, and one
/// end marker closes the stream.
pub fn relay(text: &str) -> (r: Vec<RelayEvent>)
    ensures
        relay_of(text@, r@),
{
    let v = chars_of(text);
    let ranges = line_ranges(&v);
    let ghost ls = lines(v@);
    let mut out: Vec<RelayEvent> = Vec::new();
    let ghost mut seen: Seq<Seq<char>> = Seq::empty();
    let mut j: usize = 0;
    assert(ls.skip(0) =~= ls);
    while j < ranges.len()
        invariant
            v@ == text@,
            ls == lines(v@),
            j <= ranges@.len() == ls.len(),
            forall|k: int| 0 <= k < ranges@.len() ==> #[trigger] ranges@[k].0 <= ranges@[k].1 <= v@.len(),
            forall|k: int|
                0 <= k < ranges@.len() ==> v@.subrange(ranges@[k].0 as int, ranges@[k].1 as int)
                    == #[trigger] lines(v@)[k],
            frames(text@) == seen + frames_of_lines(ls.skip(j as int)),
            out@.len() == seen.len(),
            forall|i: int| 0 <= i < seen.len() ==> answers(#[trigger] out@[i], seen[i]),
        decreases ranges.len() - j,
    {
        let (lo, hi) = ranges[j];
        let ghost rest = ls.skip(j as int);
        assert(rest[0] == ls[j as int]);
        assert(rest.drop_first() =~= ls.skip(j + 1));
        assert(v@.subrange(lo as int, hi as int) == ls[j as int]);
        match line_step(&v, lo, hi) {
            LineStep::Skip => {
                j = j + 1;
            },
            LineStep::Stop => {
                assert(ls.skip(ranges@.len() as int) =~= Seq::<Seq<char>>::empty());
                assert(seen + Seq::<Seq<char>>::empty() =~= seen);
                j = ranges.len();
            },
            LineStep::Frame(a, b) => {
                let p = string_from(&v, a, b);
                let d = decode(p.as_str());
                let e = event_for(d);
                proof {
                    lemma_relays_answers(e, d, payload(ls[j as int]));
                }
                let ghost old_out = out@;
                out.push(e);
                proof {
                    assert(seen.push(payload(ls[j as int])) + frames_of_lines(ls.skip(j + 1))
                        =~= seen + (seq![payload(ls[j as int])] + frames_of_lines(ls.skip(j + 1))));
                    seen = seen.push(payload(ls[j as int]));
                    assert forall|i: int| 0 <= i < seen.len() implies answers(
                        #[trigger] out@[i],
                        seen[i],
                    ) by {
                        if i < old_out.len() {
                            assert(out@[i] == old_out[i]);
                        }
                    }
                }
                j = j + 1;
            },
        }
    }
    assert(ls.skip(j as int) =~= Seq::<Seq<char>>::empty());
    assert(seen + Seq::<Seq<char>>::empty() =~= seen);
    let ghost before = out@;
    out.push(RelayEvent::Done);
    assert forall|i: int| 0 <= i < seen.len() implies answers(#[trigger] out@[i], seen[i]) by {
        assert(out@[i] == before[i]);
    }
    out
}

/// Whatever the body, a relay ends with the end marker, and the end marker
/// appears nowhere before it.
pub proof fn lemma_relay_ends_once(text: Seq<char>, r: Seq<RelayEvent>)
    requires
        relay_of(text, r),
    ensures
        r.len() >= 1,
        r.last() is Done,
        forall|i: int| 0 <= i < r.len() - 1 ==> !(#[trigger] r[i] is Done),
{
    assert forall|i: int| 0 <= i < r.len() - 1 implies !(#[trigger] r[i] is Done) by {
        assert(answers(r[i], frames(text)[i]));
    }
}

/// Two bodies with the same frames are relayed alike, event for event.
pub proof fn lemma_same_frames_same_events(
    t1: Seq<char>,
    t2: Seq<char>,
    a: Seq<RelayEvent>,
    b: Seq<RelayEvent>,
)
    requires
        frames(t1) == frames(t2),
        relay_of(t1, a),
        relay_of(t2, b),
    ensures
        a.len() == b.len(),
        forall|i: int| 0 <= i < a.len() ==> event_view(#[trigger] a[i]) == event_view(b[i]),
{
    let fs = frames(t1);
    assert forall|i: int| 0 <= i < a.len() implies event_view(#[trigger] a[i]) == event_view(
        b[i],
    ) by {
        if i < fs.len() {
            assert(answers(a[i], fs[i]));
            assert(answers(b[i], fs[i]));
        }
    }
}

/// Relaying one body twice gives the same events, with the same texts.
pub proof fn lemma_relay_deterministic(text: Seq<char>, a: Seq<RelayEvent>, b: Seq<RelayEvent>)
    requires
        relay_of(text, a),
        relay_of(text, b),
    ensures
        a.len() == b.len(),
        forall|i: int| 0 <= i < a.len() ==> event_view(#[trigger] a[i]) == event_view(b[i]),
{
    lemma_same_frames_same_events(text, text, a, b);
}

/// A frame line is answered and the scan goes on with the rest of the
/// body, whether or not its payload parses.
pub proof fn lemma_frame_line_continues(line: Seq<char>, rest: Seq<char>)
    requires
        forall|i: int| 0 <= i < line.len() ==> line[i] != '\n',
        is_frame_line(line),
    ensures
        frames(line + seq!['\n'] + rest) == seq![payload(line)] + frames(rest),
{
    lemma_lines_join(line, rest);
    lemma_lines_single(line);
    let ls = seq![line] + lines(rest);
    assert(ls[0] == line);
    assert(ls.drop_first() =~= lines(rest));
}

proof fn lemma_stop_ends_lines(pre: Seq<Seq<char>>, line: Seq<char>, post: Seq<Seq<char>>)
    requires
        is_stop_line(line),
    ensures
        frames_of_lines(pre.push(line) + post) == frames_of_lines(pre.push(line)),
    decreases pre.len(),
{
    if pre.len() == 0 {
        assert((pre.push(line) + post)[0] == line);
        assert(pre.push(line)[0] == line);
    } else {
        let a = pre.push(line) + post;
        let b = pre.push(line);
        assert(a[0] == pre[0]);
        assert(b[0] == pre[0]);
        assert(a.drop_first() =~= pre.drop_first().push(line) + post);
        assert(b.drop_first() =~= pre.drop_first().push(line));
        lemma_stop_ends_lines(pre.drop_first(), line, post);
    }
}

/// Nothing after a stop line (a data line whose remainder trims to
/// `[DONE]`, such as `data: [DONE]`) is relayed: the frames are those of the
/// body cut after that line.
pub proof fn lemma_stop_line_ends_scan(pre: Seq<char>, line: Seq<char>, post: Seq<char>)
    requires
        pre.len() == 0 || pre.last() == '\n',
        forall|i: int| 0 <= i < line.len() ==> line[i] != '\n',
        is_stop_line(line),
    ensures
        frames(pre + line + seq!['\n'] + post) == frames(pre + line),
{
    lemma_lines_join(pre + line, post);
    lemma_lines_single(line);
    let ghost head: Seq<Seq<char>>;
    if pre.len() == 0 {
        assert(pre + line =~= line);
        head = Seq::empty();
        assert(lines(pre + line) =~= head.push(line));
    } else {
        let p0 = pre.drop_last();
        assert(pre + line =~= p0 + seq!['\n'] + line);
        lemma_lines_join(p0, line);
        head = lines(p0);
        assert(lines(pre + line) =~= head.push(line));
    }
    lemma_stop_ends_lines(head, line, lines(post));
}

/// A frame that does not parse is answered by its diagnostic, and the
/// events of the lines after it are those of relaying the rest alone.
pub proof fn lemma_malformed_frame_recovered(
    line: Seq<char>,
    rest: Seq<char>,
    a: Seq<RelayEvent>,
    b: Seq<RelayEvent>,
)
    requires
        forall|i: int| 0 <= i < line.len() ==> line[i] != '\n',
        is_frame_line(line),
        !json_parses(payload(line)),
        relay_of(line + seq!['\n'] + rest, a),
        relay_of(rest, b),
    ensures
        a.len() == b.len() + 1,
        event_view(a[0]) == EventView::Diagnostic(
            diagnostic_payload(json_error_text(payload(line))),
        ),
        forall|i: int| 0 <= i < b.len() ==> event_view(#[trigger] a[i + 1]) == event_view(b[i]),
{
    lemma_frame_line_continues(line, rest);
    let fa = frames(line + seq!['\n'] + rest);
    let fb = frames(rest);
    assert(fa[0] == payload(line));
    assert(answers(a[0], fa[0]));
    assert forall|i: int| 0 <= i < b.len() implies event_view(#[trigger] a[i + 1]) == event_view(
        b[i],
    ) by {
        if i < fb.len() {
            assert(fa[i + 1] == fb[i]);
            assert(answers(a[i + 1], fa[i + 1]));
            assert(answers(b[i], fb[i]));
        }
    }
}

/// The relay of a body with a stop line is the relay of the body cut after
/// that line, event for event.
pub proof fn lemma_stop_line_ends_relay(
    pre: Seq<char>,
    line: Seq<char>,
    post: Seq<char>,
    a: Seq<RelayEvent>,
    b: Seq<RelayEvent>,
)
    requires
        pre.len() == 0 || pre.last() == '\n',
        forall|i: int| 0 <= i < line.len() ==> line[i] != '\n',
        is_stop_line(line),
        relay_of(pre + line + seq!['\n'] + post, a),
        relay_of(pre + line, b),
    ensures
        a.len() == b.len(),
        forall|i: int| 0 <= i < a.len() ==> event_view(#[trigger] a[i]) == event_view(b[i]),
{
    lemma_stop_line_ends_scan(pre, line, post);
    lemma_same_frames_same_events(pre + line + seq!['\n'] + post, pre + line, a, b);
}

} // verus!
