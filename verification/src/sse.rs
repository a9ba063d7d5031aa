//! Reading the server-sent event stream of a streamed chat completion:
//! events are separated by a blank line, and each `data:` line of an event
//! carries one payload, where the payload `[DONE]` ends the stream.
use vstd::prelude::*;

use crate::interop::{text_from_bytes_lossy, utf8_lossy};
use crate::openrouter::{delta_text, first_delta, OpenRouterError};
use crate::text::{chars_of, trim, trim_bounds_in};

verus! {

/// What one `data:` line carries.
#[derive(Debug, Clone, PartialEq, Eq)]
pub enum SseData {
    /// A payload to be read as JSON.
    Payload(String),
    /// The end of the stream.
    Done,
}

/// What one `data:` line carries, as text.
pub enum DataView {
    Payload(Seq<char>),
    Done,
}

impl View for SseData {
    type V = DataView;

    open spec fn view(&self) -> DataView {
        match self {
            SseData::Payload(p) => DataView::Payload(p@),
            SseData::Done => DataView::Done,
        }
    }
}

/// The views of `items`.
pub open spec fn data_views(items: Seq<SseData>) -> Seq<DataView> {
    items.map_values(|d: SseData| d@)
}

/// Where the first blank line (two newlines in a row) starts in `s`, at or
/// after position `from`.
pub open spec fn break_from(s: Seq<char>, from: int) -> Option<int>
    decreases s.len() - from,
{
    if from < 0 || from + 1 >= s.len() {
        None
    } else if s[from] == '\n' && s[from + 1] == '\n' {
        Some(from)
    } else {
        break_from(s, from + 1)
    }
}

/// Where the first blank line starts in `s`.
pub open spec fn first_break(s: Seq<char>) -> Option<int> {
    break_from(s, 0)
}

/// The complete events of `s`, each without its closing blank line, and
/// the text that follows the last of them.
pub open spec fn split_frames(s: Seq<char>) -> (Seq<Seq<char>>, Seq<char>)
    decreases s.len(),
{
    match first_break(s) {
        Some(i) => if 0 <= i && i + 2 <= s.len() {
            let (frames, rest) = split_frames(s.subrange(i + 2, s.len() as int));
            (seq![s.take(i)] + frames, rest)
        } else {
            (seq![], s)
        },
        None => (seq![], s),
    }
}

/// `line` without one trailing carriage return.
pub open spec fn strip_cr(line: Seq<char>) -> Seq<char> {
    if line.len() > 0 && line.last() == '\r' {
        line.drop_last()
    } else {
        line
    }
}

/// Scans `s` from left to right: the lines ended by a newline so far (a
/// carriage return before the newline taken off), and the text after the
/// last newline.
pub open spec fn scan_lines(s: Seq<char>) -> (Seq<Seq<char>>, Seq<char>)
    decreases s.len(),
{
    if s.len() == 0 {
        (seq![], seq![])
    } else {
        let (done, cur) = scan_lines(s.drop_last());
        if s.last() == '\n' {
            (done.push(strip_cr(cur)), seq![])
        } else {
            (done, cur.push(s.last()))
        }
    }
}

/// The lines of `s`: split at newlines, a final newline ending the last
/// line rather than starting an empty one.
pub open spec fn lines(s: Seq<char>) -> Seq<Seq<char>> {
    let (done, cur) = scan_lines(s);
    if cur.len() > 0 {
        done.push(cur)
    } else {
        done
    }
}

/// The field name that marks a data line.
pub open spec fn data_prefix() -> Seq<char> {
    seq!['d', 'a', 't', 'a', ':']
}

/// The payload that ends the stream.
pub open spec fn done_marker() -> Seq<char> {
    seq!['[', 'D', 'O', 'N', 'E', ']']
}

/// What `line` carries: for a data line, its trimmed value (`Done` for the
/// end marker); nothing for any other line.
pub open spec fn line_data(line: Seq<char>) -> Seq<DataView> {
    if line.len() >= 5 && line.take(5) == data_prefix() {
        let value = trim(line.skip(5));
        if value == done_marker() {
            seq![DataView::Done]
        } else {
            seq![DataView::Payload(value)]
        }
    } else {
        seq![]
    }
}

/// What the lines `ls` carry, in order.
pub open spec fn lines_data(ls: Seq<Seq<char>>) -> Seq<DataView>
    decreases ls.len(),
{
    if ls.len() == 0 {
        seq![]
    } else {
        lines_data(ls.drop_last()) + line_data(ls.last())
    }
}

/// What the events `frames` carry, in order.
pub open spec fn frames_data(frames: Seq<Seq<char>>) -> Seq<DataView>
    decreases frames.len(),
{
    if frames.len() == 0 {
        seq![]
    } else {
        frames_data(frames.drop_last()) + lines_data(lines(frames.last()))
    }
}

/// Decoding `text` after the undecoded text `buffer`: what the complete
/// events carry, and the text left undecoded.
pub open spec fn decode(buffer: Seq<char>, text: Seq<char>) -> (Seq<DataView>, Seq<char>) {
    let (frames, rest) = split_frames(buffer + text);
    (frames_data(frames), rest)
}

proof fn lemma_break_from(s: Seq<char>, from: int)
    requires
        0 <= from,
    ensures
        break_from(s, from) matches Some(i) ==> {
            &&& from <= i && i + 1 < s.len()
            &&& s[i] == '\n' && s[i + 1] == '\n'
            &&& forall|j: int| from <= j < i ==> !(s[j] == '\n' && #[trigger] s[j + 1] == '\n')
        },
        break_from(s, from) is None ==> forall|j: int|
            from <= j && j + 1 < s.len() ==> !(s[j] == '\n' && #[trigger] s[j + 1] == '\n'),
    decreases s.len() - from,
{
    if from + 1 < s.len() && !(s[from] == '\n' && s[from + 1] == '\n') {
        lemma_break_from(s, from + 1);
    }
}

proof fn lemma_break_from_prefix(x: Seq<char>, b: Seq<char>, from: int)
    requires
        0 <= from,
        break_from(x, from) is Some,
    ensures
        break_from(x + b, from) == break_from(x, from),
    decreases x.len() - from,
{
    lemma_break_from(x, from);
    let y = x + b;
    assert(y[from] == x[from]);
    assert(y[from + 1] == x[from + 1]);
    if !(x[from] == '\n' && x[from + 1] == '\n') {
        lemma_break_from_prefix(x, b, from + 1);
    }
}

proof fn lemma_split_frames_append(x: Seq<char>, b: Seq<char>)
    ensures
        split_frames(x + b) == (split_frames(x).0 + split_frames(split_frames(x).1 + b).0, split_frames(
            split_frames(x).1 + b,
        ).1),
    decreases x.len(),
{
    match first_break(x) {
        Some(i) => {
            lemma_break_from(x, 0);
            lemma_break_from_prefix(x, b, 0);
            let rest = x.subrange(i + 2, x.len() as int);
            lemma_split_frames_append(rest, b);
            assert((x + b).subrange(i + 2, (x + b).len() as int) =~= rest + b);
            assert((x + b).take(i) =~= x.take(i));
            let (f1, r1) = split_frames(rest);
            let (f2, r2) = split_frames(r1 + b);
            assert(seq![x.take(i)] + (f1 + f2) =~= (seq![x.take(i)] + f1) + f2);
        },
        None => {
            assert(split_frames(x).0 + split_frames(x + b).0 =~= split_frames(x + b).0);
        },
    }
}

proof fn lemma_frames_data_concat(a: Seq<Seq<char>>, b: Seq<Seq<char>>)
    ensures
        frames_data(a + b) == frames_data(a) + frames_data(b),
    decreases b.len(),
{
    if b.len() == 0 {
        assert(a + b =~= a);
        assert(frames_data(a) + frames_data(b) =~= frames_data(a));
    } else {
        lemma_frames_data_concat(a, b.drop_last());
        assert((a + b).drop_last() =~= a + b.drop_last());
        assert((a + b).last() == b.last());
        assert(frames_data(a + b) =~= frames_data(a) + frames_data(b));
    }
}

/// Decoding does not depend on how the text is cut into pieces: decoding
/// `a` and then `b` from what `a` left undecoded yields, together, exactly
/// what decoding `a + b` at once yields, and leaves the same text undecoded.
pub proof fn lemma_decode_in_pieces(buffer: Seq<char>, a: Seq<char>, b: Seq<char>)
    ensures
        decode(buffer, a + b) == (decode(buffer, a).0 + decode(decode(buffer, a).1, b).0, decode(
            decode(buffer, a).1,
            b,
        ).1),
{
    let x = buffer + a;
    assert(buffer + (a + b) =~= x + b);
    lemma_split_frames_append(x, b);
    let (f1, r1) = split_frames(x);
    let (f2, r2) = split_frames(r1 + b);
    lemma_frames_data_concat(f1, f2);
}


/// What the data line `v[lo..hi]` carries, where `v@ == s@`.
fn line_data_at(v: &Vec<char>, s: &str, lo: usize, hi: usize) -> (res: Vec<SseData>)
    requires
        v@ == s@,
        lo <= hi <= v.len(),
    ensures
        data_views(res@) == line_data(v@.subrange(lo as int, hi as int)),
{
    let ghost line = v@.subrange(lo as int, hi as int);
    let mut res: Vec<SseData> = Vec::new();
    if !(hi - lo >= 5 && v[lo] == 'd' && v[lo + 1] == 'a' && v[lo + 2] == 't' && v[lo + 3] == 'a'
        && v[lo + 4] == ':') {
        proof {
            if line.len() >= 5 && line.take(5) == data_prefix() {
                assert(line.take(5)[0] == 'd');
                assert(line.take(5)[1] == 'a');
                assert(line.take(5)[2] == 't');
                assert(line.take(5)[3] == 'a');
                assert(line.take(5)[4] == ':');
            }
        }
        assert(data_views(res@) =~= seq![]);
        return res;
    }
    assert(line.take(5) =~= data_prefix());
    assert(line.skip(5) =~= v@.subrange(lo + 5, hi as int));
    let (p, q) = trim_bounds_in(v, lo + 5, hi);
    let ghost value = v@.subrange(p as int, q as int);
    if q - p == 6 && v[p] == '[' && v[p + 1] == 'D' && v[p + 2] == 'O' && v[p + 3] == 'N'
        && v[p + 4] == 'E' && v[p + 5] == ']' {
        assert(value =~= done_marker());
        res.push(SseData::Done);
        assert(data_views(res@) =~= line_data(line));
    } else {
        proof {
            if value == done_marker() {
                assert(value[0] == '[');
                assert(value[1] == 'D');
                assert(value[2] == 'O');
                assert(value[3] == 'N');
                assert(value[4] == 'E');
                assert(value[5] == ']');
            }
        }
        let payload = s.substring_char(p, q).to_owned();
        assert(payload@ == trim(line.skip(5)));
        res.push(SseData::Payload(payload));
        assert(res@[0]@ == DataView::Payload(trim(line.skip(5))));
        assert(data_views(res@) =~= line_data(line));
    }
    assert(data_views(res@) =~= line_data(line));
    res
}

/// What the event `v[lo..hi]` carries, where `v@ == s@`.
fn frame_data_at(v: &Vec<char>, s: &str, lo: usize, hi: usize) -> (res: Vec<SseData>)
    requires
        v@ == s@,
        lo <= hi <= v.len(),
    ensures
        data_views(res@) == lines_data(lines(v@.subrange(lo as int, hi as int))),
{
    let mut res: Vec<SseData> = Vec::new();
    let mut start: usize = lo;
    let mut k: usize = lo;
    let ghost mut done: Seq<Seq<char>> = seq![];
    assert(v@.subrange(lo as int, lo as int) =~= seq![]);
    assert(data_views(res@) =~= seq![]);
    while k < hi
        invariant
            v@ == s@,
            lo <= start <= k <= hi <= v.len(),
            scan_lines(v@.subrange(lo as int, k as int)) == (done, v@.subrange(start as int, k as int)),
            data_views(res@) == lines_data(done),
        decreases hi - k,
    {
        let ghost sub = v@.subrange(lo as int, k + 1);
        assert(sub.drop_last() =~= v@.subrange(lo as int, k as int));
        assert(sub.last() == v@[k as int]);
        if v[k] == '\n' {
            let end = if k > start && v[k - 1] == '\r' { k - 1 } else { k };
            let ghost cur = v@.subrange(start as int, k as int);
            assert(strip_cr(cur) =~= v@.subrange(start as int, end as int));
            let items = line_data_at(v, s, start, end);
            let ghost before = res@;
            let mut items = items;
            res.append(&mut items);
            proof {
                let new_done = done.push(strip_cr(cur));
                assert(new_done.drop_last() =~= done);
                assert(data_views(res@) =~= data_views(before) + line_data(strip_cr(cur)));
                done = new_done;
            }
            start = k + 1;
            assert(v@.subrange(start as int, k + 1) =~= seq![]);
        } else {
            assert(v@.subrange(start as int, k + 1) =~= v@.subrange(start as int, k as int).push(v@[k as int]));
        }
        k = k + 1;
    }
    if start < hi {
        let items = line_data_at(v, s, start, hi);
        let ghost before = res@;
        let mut items = items;
        res.append(&mut items);
        proof {
            let cur = v@.subrange(start as int, hi as int);
            assert(done.push(cur).drop_last() =~= done);
            assert(data_views(res@) =~= data_views(before) + line_data(cur));
        }
    }
    res
}

/// Where the first blank line of `v[from..]` starts, counted from `from`.
fn find_break(v: &Vec<char>, from: usize) -> (res: Option<usize>)
    requires
        from <= v.len(),
    ensures
        match res {
            Some(i) => first_break(v@.subrange(from as int, v.len() as int)) == Some(i as int)
                && from + i + 2 <= v.len(),
            None => first_break(v@.subrange(from as int, v.len() as int)) is None,
        },
{
    let ghost sub = v@.subrange(from as int, v.len() as int);
    let mut j: usize = from;
    while j < v.len() && j + 1 < v.len()
        invariant
            from <= j <= v.len(),
            sub == v@.subrange(from as int, v.len() as int),
            break_from(sub, 0) == break_from(sub, j - from),
        decreases v.len() - j,
    {
        assert(sub[j - from] == v@[j as int]);
        assert(sub[j - from + 1] == v@[j + 1]);
        if v[j] == '\n' && v[j + 1] == '\n' {
            return Some(j - from);
        }
        j = j + 1;
    }
    None
}

/// A reader of the event stream: it keeps the text of an event not yet
/// complete.
pub struct SseDecoder {
    buffer: String,
}

impl View for SseDecoder {
    type V = Seq<char>;

    /// The text received but not yet decoded.
    closed spec fn view(&self) -> Seq<char> {
        self.buffer@
    }
}

impl SseDecoder {
    /// A reader that has received nothing.
    pub fn new() -> (res: SseDecoder)
        ensures
            res@ == Seq::<char>::empty(),
    {
        SseDecoder { buffer: String::new() }
    }

    /// Receives `text`: returns what the events completed by it carry, in
    /// order, and keeps the rest.
    pub fn feed_text(&mut self, text: &str) -> (res: Vec<SseData>)
        ensures
            (data_views(res@), final(self)@) == decode(old(self)@, text@),
    {
        let ghost start = self.buffer@;
        self.buffer.append(text);
        let v = chars_of(self.buffer.as_str());
        assert(v@ == start + text@);
        let n = v.len();
        let mut res: Vec<SseData> = Vec::new();
        let mut pos: usize = 0;
        let ghost mut done: Seq<Seq<char>> = seq![];
        let ghost full = v@;
        assert(full.subrange(0, n as int) =~= full);
        assert(data_views(res@) =~= seq![]);
        loop
            invariant
                v@ == self.buffer@,
                full == v@,
                full == start + text@,
                start == old(self)@,
                n == v.len(),
                pos <= n,
                split_frames(full) == (done + split_frames(full.subrange(pos as int, n as int)).0,
                    split_frames(full.subrange(pos as int, n as int)).1),
                data_views(res@) == frames_data(done),
            decreases n - pos,
        {
            let ghost sub = full.subrange(pos as int, n as int);
            match find_break(&v, pos) {
                Some(i) => {
                    let items = frame_data_at(&v, self.buffer.as_str(), pos, pos + i);
                    let ghost before = res@;
                    let mut items = items;
                    res.append(&mut items);
                    proof {
                        let frame = sub.take(i as int);
                        assert(frame =~= full.subrange(pos as int, pos + i));
                        let next = sub.subrange(i + 2, sub.len() as int);
                        assert(next =~= full.subrange(pos + i + 2, n as int));
                        let (f1, r1) = split_frames(next);
                        assert(done + (seq![frame] + f1) =~= done.push(frame) + f1);
                        assert(done.push(frame).drop_last() =~= done);
                        assert(data_views(res@) =~= data_views(before) + lines_data(lines(frame)));
                        done = done.push(frame);
                    }
                    pos = pos + i + 2;
                },
                None => {
                    assert(done + seq![] =~= done);
                    assert(split_frames(sub) == (Seq::<Seq<char>>::empty(), sub));
                    let rest = self.buffer.as_str().substring_char(pos, n).to_owned();
                    self.buffer = rest;
                    return res;
                },
            }
        }
    }

    /// Receives the bytes `chunk`, read as UTF-8 with invalid sequences
    /// replaced: returns what the events completed by them carry, in order,
    /// and keeps the rest.
    pub fn feed(&mut self, chunk: &[u8]) -> (res: Vec<SseData>)
        ensures
            (data_views(res@), final(self)@) == decode(old(self)@, utf8_lossy(chunk@)),
    {
        let text = text_from_bytes_lossy(chunk);
        self.feed_text(text.as_str())
    }
}

/// What the server learns while reading the model's answer stream.
#[derive(Debug, Clone, PartialEq, Eq)]
pub enum StreamEvent {
    /// A data line carried the end marker.
    Done,
    /// A data line was read; these are its choices' delta texts, in order.
    Deltas(Vec<Option<String>>),
    /// A data line could not be read; the text says why.
    Unreadable(String),
    /// The transport failed; the text says why.
    Broken(String),
}

/// What reading one more event adds to the answer, when the reading is
/// ended (`ended`) or not: whether it is ended afterwards, and the item it
/// hands on, if any. The end marker ends the reading quietly, a failure
/// ends it after handing on its error, and an ended reading hands on nothing.
pub open spec fn accept_step(ended: bool, event: StreamEvent) -> (bool, Option<
    Result<String, OpenRouterError>,
>) {
    if ended {
        (true, None)
    } else {
        match event {
            StreamEvent::Done => (true, None),
            StreamEvent::Deltas(deltas) => (false, match first_delta(deltas@) {
                Some(t) => Some(Ok(t)),
                None => None,
            }),
            StreamEvent::Unreadable(detail) => (true, Some(
                Err(OpenRouterError::InvalidResponse(detail)),
            )),
            StreamEvent::Broken(detail) => (true, Some(Err(OpenRouterError::Transport(detail)))),
        }
    }
}

/// The items that reading `events` from the start hands on, in order: up to
/// the end marker or the first failure (whose error is the last item).
pub open spec fn answer_items(events: Seq<StreamEvent>) -> Seq<Result<String, OpenRouterError>>
    decreases events.len(),
{
    if events.len() == 0 {
        seq![]
    } else {
        match events[0] {
            StreamEvent::Done => seq![],
            StreamEvent::Deltas(deltas) => match first_delta(deltas@) {
                Some(t) => seq![Ok(t)] + answer_items(events.drop_first()),
                None => answer_items(events.drop_first()),
            },
            StreamEvent::Unreadable(detail) => seq![Err(OpenRouterError::InvalidResponse(detail))],
            StreamEvent::Broken(detail) => seq![Err(OpenRouterError::Transport(detail))],
        }
    }
}

/// The items of `outs`, in order.
pub open spec fn handed_on(outs: Seq<Option<Result<String, OpenRouterError>>>) -> Seq<
    Result<String, OpenRouterError>,
>
    decreases outs.len(),
{
    if outs.len() == 0 {
        seq![]
    } else {
        match outs[0] {
            Some(item) => seq![item] + handed_on(outs.drop_first()),
            None => handed_on(outs.drop_first()),
        }
    }
}

proof fn lemma_ended_reading_is_silent(
    events: Seq<StreamEvent>,
    flags: Seq<bool>,
    outs: Seq<Option<Result<String, OpenRouterError>>>,
)
    requires
        flags.len() == events.len() + 1,
        outs.len() == events.len(),
        flags[0],
        forall|i: int|
            0 <= i < events.len() ==> (flags[i + 1], outs[i]) == accept_step(
                #[trigger] flags[i],
                events[i],
            ),
    ensures
        handed_on(outs) == Seq::<Result<String, OpenRouterError>>::empty(),
    decreases events.len(),
{
    if events.len() > 0 {
        assert((flags[1], outs[0]) == accept_step(flags[0], events[0]));
        let e = events.drop_first();
        let f = flags.drop_first();
        let o = outs.drop_first();
        assert forall|i: int| 0 <= i < e.len() implies (f[i + 1], o[i]) == accept_step(
            #[trigger] f[i],
            e[i],
        ) by {
            assert((flags[i + 1 + 1], outs[i + 1]) == accept_step(flags[i + 1], events[i + 1]));
        }
        lemma_ended_reading_is_silent(e, f, o);
    }
}

/// Reading an answer stream event by event, from a reading not yet ended,
/// hands on exactly `answer_items` of the events: nothing after the end
/// marker, and nothing after the first failure but its error.
pub proof fn lemma_read_answer(
    events: Seq<StreamEvent>,
    flags: Seq<bool>,
    outs: Seq<Option<Result<String, OpenRouterError>>>,
)
    requires
        flags.len() == events.len() + 1,
        outs.len() == events.len(),
        !flags[0],
        forall|i: int|
            0 <= i < events.len() ==> (flags[i + 1], outs[i]) == accept_step(
                #[trigger] flags[i],
                events[i],
            ),
    ensures
        handed_on(outs) == answer_items(events),
    decreases events.len(),
{
    if events.len() > 0 {
        assert((flags[1], outs[0]) == accept_step(flags[0], events[0]));
        let e = events.drop_first();
        let f = flags.drop_first();
        let o = outs.drop_first();
        assert forall|i: int| 0 <= i < e.len() implies (f[i + 1], o[i]) == accept_step(
            #[trigger] f[i],
            e[i],
        ) by {
            assert((flags[i + 1 + 1], outs[i + 1]) == accept_step(flags[i + 1], events[i + 1]));
        }
        if f[0] {
            lemma_ended_reading_is_silent(e, f, o);
        } else {
            lemma_read_answer(e, f, o);
        }
    }
}

/// The reading of the model's answer stream: decodes its bytes and decides,
/// event by event, what is handed on and when the reading ends.
pub struct AnswerReader {
    decoder: SseDecoder,
    ended: bool,
}

impl AnswerReader {
    /// Whether the reading has ended.
    pub closed spec fn has_ended(&self) -> bool {
        self.ended
    }

    /// The text received but not yet decoded.
    pub closed spec fn pending(&self) -> Seq<char> {
        self.decoder@
    }

    /// A reading that has received nothing.
    pub fn new() -> (res: AnswerReader)
        ensures
            !res.has_ended(),
            res.pending() == Seq::<char>::empty(),
    {
        AnswerReader { decoder: SseDecoder::new(), ended: false }
    }

    /// Whether the reading has ended.
    pub fn is_ended(&self) -> (res: bool)
        ensures
            res == self.has_ended(),
    {
        self.ended
    }

    /// Receives the bytes `chunk`: returns what the events completed by them
    /// carry, or nothing once the reading has ended.
    pub fn feed(&mut self, chunk: &[u8]) -> (res: Vec<SseData>)
        ensures
            final(self).has_ended() == old(self).has_ended(),
            old(self).has_ended() ==> res@.len() == 0 && final(self).pending() == old(self).pending(),
            !old(self).has_ended() ==> (data_views(res@), final(self).pending()) == decode(
                old(self).pending(),
                utf8_lossy(chunk@),
            ),
    {
        if self.ended {
            return Vec::new();
        }
        self.decoder.feed(chunk)
    }

    /// Takes in one event: returns the item it hands on, if any, and ends
    /// the reading at the end marker or a failure.
    pub fn accept(&mut self, event: StreamEvent) -> (res: Option<Result<String, OpenRouterError>>)
        ensures
            (final(self).has_ended(), res) == accept_step(old(self).has_ended(), event),
            final(self).pending() == old(self).pending(),
    {
        if self.ended {
            return None;
        }
        match event {
            StreamEvent::Done => {
                self.ended = true;
                None
            },
            StreamEvent::Deltas(deltas) => match delta_text(deltas) {
                Some(t) => Some(Ok(t)),
                None => None,
            },
            StreamEvent::Unreadable(detail) => {
                self.ended = true;
                Some(Err(OpenRouterError::InvalidResponse(detail)))
            },
            StreamEvent::Broken(detail) => {
                self.ended = true;
                Some(Err(OpenRouterError::Transport(detail)))
            },
        }
    }
}

} // verus!
