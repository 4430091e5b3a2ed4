//! Turning a process's raw output into lines.
//!
//! Output arrives in chunks of bytes whose boundaries mean nothing. The pump
//! keeps the unfinished tail of the current line, cuts a line at every
//! newline byte (which it drops), and decodes each line as UTF-8 on its own,
//! so one undecodable line costs that line alone.
use vstd::prelude::*;
use vstd::utf8::{decode_utf8, valid_utf8};

verus! {

pub const NEWLINE: u8 = 10;

/// Splits `s`, read after the unfinished line `acc`, into the lines that a
/// newline completes (without it) and the unfinished line left at the end.
pub open spec fn split_from(acc: Seq<u8>, s: Seq<u8>) -> (Seq<Seq<u8>>, Seq<u8>)
    decreases s.len(),
{
    if s.len() == 0 {
        (seq![], acc)
    } else {
        let (lines, rest) = split_from(acc, s.drop_last());
        if s.last() == NEWLINE {
            (lines.push(rest), seq![])
        } else {
            (lines, rest.push(s.last()))
        }
    }
}

/// What one line of output becomes: its text when it is valid UTF-8, and
/// nothing otherwise.
pub open spec fn decode_line_spec(line: Seq<u8>) -> Option<Seq<char>> {
    if valid_utf8(line) {
        Some(decode_utf8(line))
    } else {
        None
    }
}

/// One line of process output as the session sees it.
pub enum LineEvent {
    /// A line of valid text, newline removed.
    Line(String),
    /// A line whose bytes are not valid UTF-8.
    Invalid,
}

impl View for LineEvent {
    type V = Option<Seq<char>>;

    open spec fn view(&self) -> Option<Seq<char>> {
        match self {
            LineEvent::Line(s) => Some(s@),
            LineEvent::Invalid => None,
        }
    }
}

pub open spec fn events_view(v: Seq<LineEvent>) -> Seq<Option<Seq<char>>> {
    v.map_values(|e: LineEvent| e@)
}

/// Relies on `String::from_utf8`: it succeeds exactly on valid UTF-8 and
/// then holds the characters that the bytes encode.
#[verifier::external_body]
fn string_from_utf8(bytes: Vec<u8>) -> (r: Option<String>)
    ensures
        r is Some <==> valid_utf8(bytes@),
        r is Some ==> r->0@ == decode_utf8(bytes@),
{
    String::from_utf8(bytes).ok()
}

/// Decodes one complete line of output.
pub fn decode_line(line: Vec<u8>) -> (r: LineEvent)
    ensures
        r@ == decode_line_spec(line@),
{
    match string_from_utf8(line) {
        Some(s) => LineEvent::Line(s),
        None => LineEvent::Invalid,
    }
}

/// The reader of one process's output.
pub struct LinePump {
    partial: Vec<u8>,
}

impl View for LinePump {
    type V = Seq<u8>;

    /// The bytes of the line that has not been finished yet.
    closed spec fn view(&self) -> Seq<u8> {
        self.partial@
    }
}

impl LinePump {
    pub fn new() -> (p: LinePump)
        ensures
            p@ == Seq::<u8>::empty(),
    {
        LinePump { partial: Vec::new() }
    }

    /// Reads the next chunk of output: returns one event for each line that
    /// the chunk completes, in order, and keeps the rest for later.
    pub fn feed(&mut self, chunk: &[u8]) -> (r: Vec<LineEvent>)
        ensures
            split_from(old(self)@, chunk@).1 == final(self)@,
            events_view(r@) == split_from(old(self)@, chunk@).0.map_values(
                |l: Seq<u8>| decode_line_spec(l),
            ),
    {
        let mut events: Vec<LineEvent> = Vec::new();
        let ghost lines: Seq<Seq<u8>> = seq![];
        let mut i: usize = 0;
        while i < chunk.len()
            invariant
                i <= chunk@.len(),
                split_from(old(self)@, chunk@.take(i as int)) == (lines, self.partial@),
                events_view(events@) == lines.map_values(|l: Seq<u8>| decode_line_spec(l)),
            decreases chunk@.len() - i,
        {
            let b = chunk[i];
            assert(chunk@.take(i + 1).drop_last() =~= chunk@.take(i as int));
            assert(chunk@.take(i + 1).last() == b);
            if b == NEWLINE {
                let ghost before = self.partial@;
                let ghost old_events = events@;
                let line = self.partial.split_off(0);
                assert(line@ =~= before);
                let ev = decode_line(line);
                proof {
                    lines = lines.push(before);
                }
                events.push(ev);
                assert(events_view(events@) =~= events_view(old_events).push(
                    decode_line_spec(before),
                ));
                assert(events_view(events@) =~= lines.map_values(
                    |l: Seq<u8>| decode_line_spec(l),
                ));
                assert(self.partial@ =~= seq![]);
            } else {
                self.partial.push(b);
            }
            i = i + 1;
        }
        assert(chunk@.take(i as int) =~= chunk@);
        events
    }

    /// The output stream ended: returns an event for the unfinished last
    /// line, if it holds any bytes.
    pub fn finish(&mut self) -> (r: Option<LineEvent>)
        ensures
            final(self)@ == Seq::<u8>::empty(),
            old(self)@.len() == 0 ==> r is None,
            old(self)@.len() > 0 ==> r is Some && r->0@ == decode_line_spec(old(self)@),
    {
        let ghost before = self.partial@;
        let line = self.partial.split_off(0);
        assert(line@ =~= before);
        assert(self.partial@ =~= Seq::<u8>::empty());
        if line.len() == 0 {
            None
        } else {
            Some(decode_line(line))
        }
    }
}

proof fn lemma_split_unterminated(acc: Seq<u8>, p: Seq<u8>, t: Seq<u8>)
    requires
        !t.contains(NEWLINE),
    ensures
        split_from(acc, p + t) == (split_from(acc, p).0, split_from(acc, p).1 + t),
    decreases t.len(),
{
    if t.len() == 0 {
        assert(p + t =~= p);
        assert(split_from(acc, p).1 + t =~= split_from(acc, p).1);
    } else {
        let t0 = t.drop_last();
        assert(!t0.contains(NEWLINE)) by {
            if t0.contains(NEWLINE) {
                let k = choose|k: int| 0 <= k < t0.len() && t0[k] == NEWLINE;
                assert(t[k] == NEWLINE);
            }
        }
        lemma_split_unterminated(acc, p, t0);
        assert((p + t).drop_last() =~= p + t0);
        assert(t.last() == t[t.len() - 1]);
        assert((p + t).last() == t.last());
        assert(split_from(acc, p).1 + t0 + seq![t.last()] =~= split_from(acc, p).1 + t);
    }
}

/// A line that cannot be decoded spoils nothing else: when two lines `a`
/// and `b` arrive back to back, the pump cuts exactly these two lines and
/// reports one event for each, an undecodable `a` giving one error event and
/// `b` still its own text.
pub proof fn lemma_bad_line_is_isolated(a: Seq<u8>, b: Seq<u8>)
    requires
        !a.contains(NEWLINE),
        !b.contains(NEWLINE),
    ensures
        split_from(seq![], a.push(NEWLINE) + b.push(NEWLINE)) == (seq![a, b], Seq::<u8>::empty()),
        split_from(seq![], a.push(NEWLINE) + b.push(NEWLINE)).0.map_values(
            |l: Seq<u8>| decode_line_spec(l),
        ) == seq![decode_line_spec(a), decode_line_spec(b)],
        !valid_utf8(a) ==> decode_line_spec(a) is None,
        valid_utf8(b) ==> decode_line_spec(b) == Some(decode_utf8(b)),
{
    let e = Seq::<u8>::empty();
    lemma_split_unterminated(e, e, a);
    assert(e + a =~= a);
    assert(split_from(e, e) == (Seq::<Seq<u8>>::empty(), e));
    assert(split_from(e, a.push(NEWLINE)) == (seq![a], e)) by {
        assert(a.push(NEWLINE).drop_last() =~= a);
        assert(e + a =~= a);
        assert(seq![].push(a) =~= seq![a]);
    }
    lemma_split_unterminated(e, a.push(NEWLINE), b);
    let s = a.push(NEWLINE) + b.push(NEWLINE);
    assert(s.drop_last() =~= a.push(NEWLINE) + b);
    assert(s.last() == NEWLINE);
    assert(e + b =~= b);
    assert(seq![a].push(b) =~= seq![a, b]);
    assert(seq![a, b].map_values(|l: Seq<u8>| decode_line_spec(l)) =~= seq![
        decode_line_spec(a),
        decode_line_spec(b),
    ]);
}

} // verus!
