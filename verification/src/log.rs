//! The debugger log: the engine's diagnostic text, which arrives in
//! fragments, gathered into lines.
//!
//! The last line of the log is always the one in progress. A fragment is
//! added to it up to its first line break; every further line break starts
//! a new line.

use vstd::prelude::*;
use vstd::string::*;

verus! {

/// Where a line of the log comes from.
#[derive(Debug, Clone, Copy, PartialEq, Eq, Structural)]
pub enum LineKind {
    /// Text that the engine emitted.
    Output,
    /// A command that the user submitted.
    Command,
}

/// A line of the log, as the contracts see it.
pub struct Line {
    pub kind: LineKind,
    pub text: Seq<char>,
}

struct Entry {
    kind: LineKind,
    text: String,
}

impl Entry {
    spec fn line(self) -> Line {
        Line { kind: self.kind, text: self.text@ }
    }
}

/// The lines of the log, the one in progress last.
pub struct LogModel {
    finished: Vec<Entry>,
    current: Entry,
}

/// The pieces between the line breaks of a text, in order. There is always
/// a first piece; every line break ends a piece and begins another.
pub open spec fn split_lines(text: Seq<char>) -> Seq<Seq<char>>
    decreases text.len(),
{
    if text.len() == 0 {
        seq![Seq::empty()]
    } else {
        let before = split_lines(text.drop_last());
        if text.last() == '\n' {
            before.push(Seq::empty())
        } else {
            before.update(before.len() - 1, before.last().push(text.last()))
        }
    }
}

/// An engine line with the given text.
pub open spec fn output_line(text: Seq<char>) -> Line {
    Line { kind: LineKind::Output, text }
}

/// The log after the pieces of a fragment have been taken in: the first
/// piece goes on the end of the line in progress, each further piece is a
/// new engine line.
pub open spec fn appended(lines: Seq<Line>, pieces: Seq<Seq<char>>) -> Seq<Line>
    recommends
        lines.len() > 0,
        pieces.len() > 0,
{
    lines.drop_last().push(
        Line { kind: lines.last().kind, text: lines.last().text + pieces[0] },
    ) + pieces.skip(1).map_values(|piece: Seq<char>| output_line(piece))
}

/// The log after a command has been echoed: the command takes the place of
/// an empty line in progress, or follows a line in progress that has text;
/// a new, empty engine line follows it.
pub open spec fn echoed(lines: Seq<Line>, command: Seq<char>) -> Seq<Line>
    recommends
        lines.len() > 0,
{
    let kept = if lines.last().text.len() == 0 {
        lines.drop_last()
    } else {
        lines
    };
    kept.push(Line { kind: LineKind::Command, text: command }).push(output_line(Seq::empty()))
}

/// The whole text of a log: its lines, with a line break between each line
/// and the next.
pub open spec fn transcript(lines: Seq<Line>) -> Seq<char>
    decreases lines.len(),
{
    if lines.len() == 0 {
        Seq::empty()
    } else if lines.len() == 1 {
        lines[0].text
    } else {
        transcript(lines.drop_last()) + seq!['\n'] + lines.last().text
    }
}

/// No line of the log has a line break in it.
pub open spec fn unbroken(lines: Seq<Line>) -> bool {
    forall|i: int| 0 <= i < lines.len() ==> !(#[trigger] lines[i]).text.contains('\n')
}

impl LogModel {
    /// The lines of the log, the one in progress last.
    pub closed spec fn view(&self) -> Seq<Line> {
        self.finished@.map_values(|entry: Entry| entry.line()).push(self.current.line())
    }

    /// A log with one empty engine line in progress.
    pub fn new() -> (log: Self)
        ensures
            log@ == seq![output_line(Seq::empty())],
    {
        let log = LogModel {
            finished: Vec::new(),
            current: Entry { kind: LineKind::Output, text: String::new() },
        };
        assert(log@ =~= seq![output_line(Seq::empty())]);
        log
    }

    /// The index of the line in progress, which is the last one.
    pub fn last_index(&self) -> (index: usize)
        ensures
            index == self@.len() - 1,
    {
        self.finished.len()
    }

    /// The text of one line, if the log has a line with this index.
    pub fn text(&self, index: usize) -> (text: Option<&str>)
        ensures
            index < self@.len() ==> (text matches Some(text) && text@ == self@[index as int].text),
            index >= self@.len() ==> text is None,
    {
        if index < self.finished.len() {
            Some(self.finished[index].text.as_str())
        } else if index == self.finished.len() {
            Some(self.current.text.as_str())
        } else {
            None
        }
    }

    /// Where one line comes from, if the log has a line with this index.
    pub fn kind(&self, index: usize) -> (kind: Option<LineKind>)
        ensures
            index < self@.len() ==> kind == Some(self@[index as int].kind),
            index >= self@.len() ==> kind is None,
    {
        if index < self.finished.len() {
            Some(self.finished[index].kind)
        } else if index == self.finished.len() {
            Some(self.current.kind)
        } else {
            None
        }
    }

    /// Adds text to the line in progress.
    fn extend_last(&mut self, piece: &str)
        ensures
            final(self)@ == extended(old(self)@, piece@),
    {
        self.current.text.append(piece);
        assert(self@ =~= extended(old(self)@, piece@));
    }

    /// Closes the line in progress and starts a new one.
    fn start_line(&mut self, kind: LineKind, text: &str)
        ensures
            final(self)@ == old(self)@.push(Line { kind, text: text@ }),
    {
        let mut entry = Entry { kind, text: text.to_owned() };
        std::mem::swap(&mut self.current, &mut entry);
        self.finished.push(entry);
        assert(self@ =~= old(self)@.push(Line { kind, text: text@ }));
    }

    /// Takes in a fragment of engine text. Returns the index of the first
    /// line that may have changed: the line that was in progress.
    pub fn push_fragment(&mut self, fragment: &str) -> (first_changed: usize)
        ensures
            final(self)@ == appended(old(self)@, split_lines(fragment@)),
            transcript(final(self)@) == transcript(old(self)@) + fragment@,
            first_changed == old(self)@.len() - 1,
    {
        let first_changed = self.finished.len();
        let total = fragment.unicode_len();
        let mut start: usize = 0;
        let mut position: usize = 0;
        proof {
            lemma_appended_nothing(self@);
            assert(fragment@.take(0) =~= Seq::empty());
            assert(fragment@.subrange(0, 0) =~= Seq::empty());
        }
        for c in it: fragment.chars()
            invariant
                total == fragment@.len(),
                it.seq() == fragment@,
                position == it.index(),
                start <= position,
                self@.len() > 0,
                split_lines(fragment@.take(position as int)).len() > 0,
                split_lines(fragment@.take(position as int)).last() == fragment@.subrange(
                    start as int,
                    position as int,
                ),
                self@ == appended(
                    old(self)@,
                    pending(split_lines(fragment@.take(position as int))),
                ),
                old(self)@.len() > 0,
        {
            let ghost pieces = split_lines(fragment@.take(position as int));
            let ghost grown = fragment@.take(position + 1);
            proof {
                assert(grown.drop_last() =~= fragment@.take(position as int));
                assert(grown.last() == c);
            }
            if c == '\n' {
                let piece = fragment.substring_char(start, position);
                self.extend_last(piece);
                self.start_line(LineKind::Output, "");
                start = position + 1;
                proof {
                    reveal_strlit("");
                    assert(""@ =~= Seq::<char>::empty());
                    lemma_appended_pending(old(self)@, pieces);
                    lemma_appended_push(old(self)@, pieces, Seq::empty());
                    assert(pending(pieces.push(Seq::empty())) =~= pieces.push(Seq::empty()));
                    assert(fragment@.subrange(start as int, start as int) =~= Seq::empty());
                }
            } else {
                proof {
                    assert(split_lines(grown) == pieces.update(
                        pieces.len() - 1,
                        pieces.last().push(c),
                    ));
                    assert(pending(split_lines(grown)) =~= pending(pieces));
                    assert(fragment@.subrange(start as int, position + 1) =~= fragment@.subrange(
                        start as int,
                        position as int,
                    ).push(c));
                }
            }
            position += 1;
        }
        let piece = fragment.substring_char(start, position);
        self.extend_last(piece);
        proof {
            assert(fragment@.take(position as int) =~= fragment@);
            lemma_appended_pending(old(self)@, split_lines(fragment@));
            lemma_transcript_appended(old(self)@, fragment@);
        }
        first_changed
    }

    /// Puts a submitted command into the log and starts a new engine line
    /// after it. Returns the index of the first line that may have changed:
    /// the line that was in progress.
    pub fn echo_command(&mut self, command: &str) -> (first_changed: usize)
        ensures
            final(self)@ == echoed(old(self)@, command@),
            first_changed == old(self)@.len() - 1,
    {
        let first_changed = self.finished.len();
        if self.current.text.as_str().is_empty() {
            self.current = Entry { kind: LineKind::Command, text: command.to_owned() };
            assert(self@ =~= old(self)@.drop_last().push(
                Line { kind: LineKind::Command, text: command@ },
            ));
        } else {
            self.start_line(LineKind::Command, command);
        }
        self.start_line(LineKind::Output, "");
        proof {
            reveal_strlit("");
            assert(""@ =~= Seq::<char>::empty());
        }
        first_changed
    }
}

/// The log with more text on the end of its last line.
pub open spec fn extended(lines: Seq<Line>, more: Seq<char>) -> Seq<Line>
    recommends
        lines.len() > 0,
{
    lines.update(lines.len() - 1, Line { kind: lines.last().kind, text: lines.last().text + more })
}

/// The pieces with the last one, which may still grow, left empty.
spec fn pending(pieces: Seq<Seq<char>>) -> Seq<Seq<char>> {
    pieces.update(pieces.len() - 1, Seq::empty())
}

/// A text always has a first piece.
proof fn lemma_split_lines_len(text: Seq<char>)
    ensures
        split_lines(text).len() > 0,
    decreases text.len(),
{
    if text.len() > 0 {
        lemma_split_lines_len(text.drop_last());
    }
}

/// A fragment without text changes nothing.
proof fn lemma_appended_nothing(lines: Seq<Line>)
    requires
        lines.len() > 0,
    ensures
        appended(lines, split_lines(Seq::empty())) == lines,
        pending(split_lines(Seq::empty())) == split_lines(Seq::empty()),
        split_lines(Seq::<char>::empty()).len() == 1,
        split_lines(Seq::<char>::empty()).last() == Seq::<char>::empty(),
{
    let pieces = split_lines(Seq::empty());
    assert(pieces =~= seq![Seq::<char>::empty()]);
    assert(pending(pieces) =~= pieces);
    assert(lines.last().text + pieces[0] =~= lines.last().text);
    assert(appended(lines, pieces) =~= lines);
}

/// One more piece is one more engine line.
proof fn lemma_appended_push(lines: Seq<Line>, pieces: Seq<Seq<char>>, piece: Seq<char>)
    requires
        lines.len() > 0,
        pieces.len() > 0,
    ensures
        appended(lines, pieces.push(piece)) == appended(lines, pieces).push(output_line(piece)),
{
    assert(appended(lines, pieces.push(piece)) =~= appended(lines, pieces).push(
        output_line(piece),
    ));
}

/// More text in the last piece is more text on the last line.
proof fn lemma_appended_grow(lines: Seq<Line>, pieces: Seq<Seq<char>>, more: Seq<char>)
    requires
        lines.len() > 0,
        pieces.len() > 0,
    ensures
        appended(lines, pieces.update(pieces.len() - 1, pieces.last() + more)) == extended(
            appended(lines, pieces),
            more,
        ),
{
    let grown = pieces.update(pieces.len() - 1, pieces.last() + more);
    if pieces.len() == 1 {
        assert(lines.last().text + grown[0] =~= lines.last().text + pieces[0] + more);
    }
    assert(appended(lines, grown) =~= extended(appended(lines, pieces), more));
}

/// Filling in the piece that was left empty.
proof fn lemma_appended_pending(lines: Seq<Line>, pieces: Seq<Seq<char>>)
    requires
        lines.len() > 0,
        pieces.len() > 0,
    ensures
        appended(lines, pieces) == extended(appended(lines, pending(pieces)), pieces.last()),
{
    let held = pending(pieces);
    assert(held.last() + pieces.last() =~= pieces.last());
    assert(held.update(held.len() - 1, held.last() + pieces.last()) =~= pieces);
    lemma_appended_grow(lines, held, pieces.last());
}

/// The text of a log grows by what is put on the end of its last line.
proof fn lemma_transcript_extended(lines: Seq<Line>, more: Seq<char>)
    requires
        lines.len() > 0,
    ensures
        transcript(extended(lines, more)) == transcript(lines) + more,
{
    let longer = extended(lines, more);
    if lines.len() > 1 {
        assert(longer.drop_last() =~= lines.drop_last());
        assert(transcript(longer) =~= transcript(lines) + more);
    }
}

/// Nothing is lost and nothing is added: after a fragment has been taken
/// in, the text of the log is the text before, followed by the fragment.
pub proof fn lemma_transcript_appended(lines: Seq<Line>, fragment: Seq<char>)
    requires
        lines.len() > 0,
    ensures
        transcript(appended(lines, split_lines(fragment))) == transcript(lines) + fragment,
    decreases fragment.len(),
{
    if fragment.len() == 0 {
        lemma_appended_nothing(lines);
        assert(transcript(lines) + fragment =~= transcript(lines));
    } else {
        let shorter = fragment.drop_last();
        let pieces = split_lines(shorter);
        let held = appended(lines, pieces);
        lemma_split_lines_len(shorter);
        lemma_transcript_appended(lines, shorter);
        assert(transcript(lines) + shorter + seq![fragment.last()] =~= transcript(lines)
            + fragment);
        if fragment.last() == '\n' {
            lemma_appended_push(lines, pieces, Seq::empty());
            let next = held.push(output_line(Seq::empty()));
            assert(next.drop_last() =~= held);
            assert(transcript(next) =~= transcript(held) + seq!['\n']);
        } else {
            assert(pieces.last().push(fragment.last()) =~= pieces.last() + seq![fragment.last()]);
            lemma_appended_grow(lines, pieces, seq![fragment.last()]);
            lemma_transcript_extended(held, seq![fragment.last()]);
        }
    }
}

/// It does not matter where the engine cuts its text: two fragments taken
/// in one after the other leave the log as the two in one piece would.
pub proof fn lemma_fragments_join(lines: Seq<Line>, first: Seq<char>, second: Seq<char>)
    requires
        lines.len() > 0,
    ensures
        appended(appended(lines, split_lines(first)), split_lines(second)) == appended(
            lines,
            split_lines(first + second),
        ),
    decreases second.len(),
{
    let taken = appended(lines, split_lines(first));
    lemma_split_lines_len(first);
    if second.len() == 0 {
        lemma_appended_nothing(taken);
        assert(first + second =~= first);
    } else {
        let shorter = second.drop_last();
        let joined = first + shorter;
        assert((first + second).drop_last() =~= joined);
        lemma_fragments_join(lines, first, shorter);
        lemma_split_lines_len(shorter);
        lemma_split_lines_len(joined);
        let pieces = split_lines(shorter);
        let whole = split_lines(joined);
        if second.last() == '\n' {
            lemma_appended_push(taken, pieces, Seq::empty());
            lemma_appended_push(lines, whole, Seq::empty());
        } else {
            let more = seq![second.last()];
            assert(pieces.last().push(second.last()) =~= pieces.last() + more);
            assert(whole.last().push(second.last()) =~= whole.last() + more);
            lemma_appended_grow(taken, pieces, more);
            lemma_appended_grow(lines, whole, more);
        }
    }
}

/// The pieces of a text have no line break in them.
pub proof fn lemma_pieces_unbroken(text: Seq<char>)
    ensures
        forall|i: int|
            0 <= i < split_lines(text).len() ==> !(#[trigger] split_lines(text)[i]).contains('\n'),
    decreases text.len(),
{
    if text.len() > 0 {
        let before = split_lines(text.drop_last());
        lemma_split_lines_len(text.drop_last());
        lemma_pieces_unbroken(text.drop_last());
        assert forall|i: int| 0 <= i < split_lines(text).len() implies !(#[trigger] split_lines(
            text,
        )[i]).contains('\n') by {
            let piece = split_lines(text)[i];
            if text.last() == '\n' {
                if i < before.len() {
                    assert(piece == before[i]);
                }
            } else if i == before.len() - 1 {
                let grown = before.last().push(text.last());
                if grown.contains('\n') {
                    let at = choose|at: int| 0 <= at < grown.len() && grown[at] == '\n';
                    assert(before.last()[at] == '\n');
                    assert(before.last().contains('\n'));
                }
            } else {
                assert(piece == before[i]);
            }
        }
    }
}

/// Engine text never puts a line break into a line: a log without line
/// breaks in its lines stays so, whatever fragment it takes in.
pub proof fn lemma_appended_unbroken(lines: Seq<Line>, fragment: Seq<char>)
    requires
        lines.len() > 0,
        unbroken(lines),
    ensures
        unbroken(appended(lines, split_lines(fragment))),
{
    let pieces = split_lines(fragment);
    let after = appended(lines, pieces);
    lemma_split_lines_len(fragment);
    lemma_pieces_unbroken(fragment);
    assert forall|i: int| 0 <= i < after.len() implies !(#[trigger] after[i]).text.contains(
        '\n',
    ) by {
        if i < lines.len() - 1 {
            assert(after[i] == lines[i]);
        } else if i == lines.len() - 1 {
            let text = lines.last().text + pieces[0];
            if text.contains('\n') {
                let at = choose|at: int| 0 <= at < text.len() && text[at] == '\n';
                if at < lines.last().text.len() {
                    assert(lines.last().text[at] == '\n');
                    assert(lines[lines.len() - 1].text.contains('\n'));
                } else {
                    assert(pieces[0][at - lines.last().text.len()] == '\n');
                    assert(pieces[0].contains('\n'));
                }
            }
        } else {
            assert(after[i].text == pieces[i - lines.len() + 1]);
        }
    }
}

/// A log that starts empty and takes in engine text holds the pieces of
/// that text, one to the line, and nothing else.
pub proof fn lemma_new_log_holds_the_pieces(text: Seq<char>)
    ensures
        appended(seq![output_line(Seq::empty())], split_lines(text)) == split_lines(
            text,
        ).map_values(|piece: Seq<char>| output_line(piece)),
{
    lemma_split_lines_len(text);
    let pieces = split_lines(text);
    let fresh = seq![output_line(Seq::<char>::empty())];
    assert(fresh.last().text + pieces[0] =~= pieces[0]);
    assert(appended(fresh, pieces) =~= pieces.map_values(|piece: Seq<char>| output_line(piece)));
}

} // verus!
