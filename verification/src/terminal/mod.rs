//! The terminal model: styled cells, the grid they live in, the interpreter
//! that turns parsed escape sequences into grid mutations, and the session
//! that feeds the interpreter from a byte stream.

pub mod cell;
pub mod grid;
pub mod parser;
pub mod pty;
pub mod screen;
pub mod url;

use vstd::prelude::*;
use crate::terminal::grid::{GridModel, TerminalGrid};
use crate::terminal::parser::{
    events_view, rows_of, EventModel, EventRecorder, PerformerModel, VtEvent, VtePerformer,
};

verus! {

/// `vte::Parser`, the VT state machine: carried through, never looked
/// into.
#[verifier::external_type_specification]
#[verifier::external_body]
pub struct ExParser<const OSC_RAW_BUF_SIZE: usize>(vte::Parser<OSC_RAW_BUF_SIZE>);

/// `vte::Params`, the parameters of a control sequence as the state
/// machine hands them out: carried through, never looked into.
#[verifier::external_type_specification]
#[verifier::external_body]
pub struct ExParams(vte::Params);

/// `vte::Parser::new`: a state machine in its ground state. Nothing is
/// claimed of it.
#[verifier::external_body]
fn new_parser() -> (parser: vte::Parser) {
    vte::Parser::new()
}

/// What `vte::Parser::advance` does when the state machine in the state
/// `parser` reads `bytes`: the actions that it dispatches, in stream
/// order, and the state in which it leaves the machine.
pub uninterp spec fn advanced(parser: vte::Parser, bytes: Seq<u8>) -> (Seq<EventModel>, vte::Parser);

/// The actions that the state machine in the state `parser` dispatches
/// when it reads `bytes`, in stream order.
pub open spec fn parsed_events(parser: vte::Parser, bytes: Seq<u8>) -> Seq<EventModel> {
    advanced(parser, bytes).0
}

/// The state in which the state machine is after it read `bytes` in the
/// state `parser`.
pub open spec fn parser_after(parser: vte::Parser, bytes: Seq<u8>) -> vte::Parser {
    advanced(parser, bytes).1
}

/// `vte::Parser::advance` with an [`EventRecorder`] as performer: runs the
/// state machine over `bytes` and hands back the actions that it
/// dispatched, in stream order. Both the actions and the state in which
/// the machine is left are functions of the state it was in and of the
/// bytes, and of nothing else; they are named, not spelt out.
#[verifier::external_body]
fn parse_events(parser: &mut vte::Parser, bytes: &[u8]) -> (events: Vec<VtEvent>)
    ensures
        (events_view(events@), *final(parser)) == advanced(*old(parser), bytes@),
{
    let mut recorder = EventRecorder::new();
    parser.advance(&mut recorder, bytes);
    recorder.events
}

/// The mathematical model of a [`Terminal`]: the state of the interpreter
/// and the state of the VT state machine.
pub struct SessionModel {
    pub performer: PerformerModel,
    pub parser: vte::Parser,
}

impl SessionModel {
    /// The session after `bytes`: the state machine has read them, and the
    /// interpreter has carried out the actions that it dispatched, in
    /// stream order.
    pub open spec fn fed(self, bytes: Seq<u8>) -> SessionModel {
        SessionModel {
            performer: self.performer.run(parsed_events(self.parser, bytes)),
            parser: parser_after(self.parser, bytes),
        }
    }

    /// The session after the chunks `chunks`, one after the other.
    pub open spec fn fed_all(self, chunks: Seq<Seq<u8>>) -> SessionModel
        decreases chunks.len(),
    {
        if chunks.len() == 0 {
            self
        } else {
            self.fed_all(chunks.drop_last()).fed(chunks.last())
        }
    }

    /// The session with its grid at the size `cols` × `rows`.
    pub open spec fn resized(self, cols: int, rows: int) -> SessionModel {
        SessionModel {
            performer: self.performer.with_grid(self.performer.grid.resize(cols, rows)),
            ..self
        }
    }
}

/// One terminal session: the VT state machine and the interpreter with its
/// grid.
pub struct Terminal {
    pub performer: VtePerformer,
    pub parser: vte::Parser,
}

impl View for Terminal {
    type V = SessionModel;

    open spec fn view(&self) -> SessionModel {
        SessionModel { performer: self.performer@, parser: self.parser }
    }
}

impl Terminal {
    /// The invariant of the session: that of its grid.
    pub open spec fn wf(&self) -> bool {
        self.performer.wf()
    }

    /// A session on an empty grid of `cols` × `rows` cells.
    pub fn new(cols: usize, rows: usize) -> (terminal: Self)
        requires
            cols >= 1,
            rows >= 1,
        ensures
            terminal.performer@ == PerformerModel::fresh(
                GridModel::fresh(cols as int, rows as int),
            ),
            terminal.wf(),
    {
        Terminal { performer: VtePerformer::new(TerminalGrid::new(cols, rows)), parser: new_parser() }
    }

    /// The grid of the session.
    pub fn grid(&self) -> (grid: &TerminalGrid)
        ensures
            *grid == self.performer.grid,
    {
        &self.performer.grid
    }

    /// Interprets `bytes` as the next part of the session's output: the
    /// state machine parses them, and the actions that it dispatches are
    /// carried out in stream order. The grid stays well-formed whatever the
    /// bytes are.
    pub fn feed(&mut self, bytes: &[u8])
        requires
            old(self).wf(),
        ensures
            final(self)@ == old(self)@.fed(bytes@),
            final(self).wf(),
    {
        let events = parse_events(&mut self.parser, bytes);
        self.performer.apply_all(&events);
    }

    /// Interprets the chunks that were read from the session's
    /// pseudoterminal, in order.
    pub fn drain_pty_output(&mut self, chunks: &Vec<Vec<u8>>)
        requires
            old(self).wf(),
        ensures
            final(self)@ == old(self)@.fed_all(rows_of(chunks@)),
            final(self).wf(),
    {
        let ghost all = rows_of(chunks@);
        let mut i: usize = 0;
        assert(all.subrange(0, 0) =~= Seq::<Seq<u8>>::empty());
        while i < chunks.len()
            invariant
                i <= chunks.len(),
                all == rows_of(chunks@),
                self.wf(),
                self@ == old(self)@.fed_all(all.subrange(0, i as int)),
            decreases chunks.len() - i,
        {
            self.feed(chunks[i].as_slice());
            proof {
                let longer = all.subrange(0, i + 1);
                assert(longer.drop_last() =~= all.subrange(0, i as int));
                assert(longer.last() == chunks@[i as int]@);
            }
            i += 1;
        }
        assert(all.subrange(0, chunks.len() as int) =~= all);
    }

    /// Gives the grid the size `cols` × `rows`, see
    /// [`TerminalGrid::resize`].
    pub fn resize(&mut self, cols: usize, rows: usize)
        requires
            old(self).wf(),
            cols >= 1,
            rows >= 1,
        ensures
            final(self)@ == old(self)@.resized(cols as int, rows as int),
            final(self).wf(),
    {
        self.performer.grid.resize(cols, rows);
    }
}

} // verus!
