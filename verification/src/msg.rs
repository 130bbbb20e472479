//! The abstract syntax of the protocol: commands travelling from the GUI to
//! the engine and messages travelling back, together with the mathematical
//! views that the parser and formatter contracts speak of.
//!
//! All durations are carried in whole milliseconds, as the wire format writes
//! them.

use vstd::prelude::*;

use crate::chess::{RawBoard, UciMove};
use crate::score::BoundedRelScore;
use crate::str::{OptComboVar, OptName, RegisterName, UciString};
use crate::types::{Permille, TriStatus};

verus! {

/// The view of an optional viewable value.
pub open spec fn ov<T: View>(o: Option<T>) -> Option<T::V> {
    match o {
        Some(x) => Some(x@),
        None => None,
    }
}

/// The views of a sequence of viewable values.
pub open spec fn views<T: View>(s: Seq<T>) -> Seq<T::V> {
    s.map_values(|x: T| x@)
}

/// The empty sequence has no views.
pub broadcast proof fn lemma_views_empty<T: View>()
    ensures
        #[trigger] views(Seq::<T>::empty()) == Seq::<T::V>::empty(),
{
    assert(views(Seq::<T>::empty()) =~= Seq::<T::V>::empty());
}

/// Appending a value appends its view.
pub broadcast proof fn lemma_views_push<T: View>(s: Seq<T>, x: T)
    ensures
        #[trigger] views(s.push(x)) == views(s).push(x@),
{
    assert forall|k: int| 0 <= k < s.len() + 1 implies views(s.push(x))[k] == views(s).push(x@)[k]
    by {
        if k < s.len() {
            assert(s.push(x)[k] == s[k]);
        } else {
            assert(s.push(x)[k] == x);
        }
    }
    assert(views(s.push(x)) =~= views(s).push(x@));
}

/// A registration request: postponed, or a name together with a code.
#[derive(Debug, Clone, PartialEq, Eq)]
pub enum Register {
    Later,
    Now { name: RegisterName, code: UciString },
}

/// The view of a registration request.
pub enum RegisterV {
    Later,
    Now { name: Seq<char>, code: Seq<char> },
}

impl View for Register {
    type V = RegisterV;

    open spec fn view(&self) -> RegisterV {
        match self {
            Register::Later => RegisterV::Later,
            Register::Now { name, code } => RegisterV::Now { name: name@, code: code@ },
        }
    }
}

/// One line of engine identification: its name or its author.
#[derive(Debug, Clone, PartialEq, Eq)]
pub enum Id {
    Name(UciString),
    Author(UciString),
}

/// The view of an identification line.
pub enum IdV {
    Name(Seq<char>),
    Author(Seq<char>),
}

impl View for Id {
    type V = IdV;

    open spec fn view(&self) -> IdV {
        match self {
            Id::Name(s) => IdV::Name(s@),
            Id::Author(s) => IdV::Author(s@),
        }
    }
}

/// One item of an `info` report. Times are in milliseconds.
#[derive(Debug, Clone, PartialEq, Eq)]
pub enum Info {
    Depth(u32),
    SelDepth(u32),
    Time(u64),
    Nodes(u64),
    Pv(Vec<UciMove>),
    MultiPv(u32),
    Score(BoundedRelScore),
    CurrMove(UciMove),
    CurrMoveNumber(u32),
    HashFull(Permille),
    Nps(u64),
    TbHits(u64),
    SbHits(u64),
    CpuLoad(Permille),
    Refutation(Vec<UciMove>),
    CurrLine { cpu_num: u32, moves: Vec<UciMove> },
}

/// The view of an `info` item.
pub enum InfoV {
    Depth(u32),
    SelDepth(u32),
    Time(u64),
    Nodes(u64),
    Pv(Seq<Seq<char>>),
    MultiPv(u32),
    Score(BoundedRelScore),
    CurrMove(Seq<char>),
    CurrMoveNumber(u32),
    HashFull(u16),
    Nps(u64),
    TbHits(u64),
    SbHits(u64),
    CpuLoad(u16),
    Refutation(Seq<Seq<char>>),
    CurrLine { cpu_num: u32, moves: Seq<Seq<char>> },
}

impl View for Info {
    type V = InfoV;

    open spec fn view(&self) -> InfoV {
        match self {
            Info::Depth(v) => InfoV::Depth(*v),
            Info::SelDepth(v) => InfoV::SelDepth(*v),
            Info::Time(v) => InfoV::Time(*v),
            Info::Nodes(v) => InfoV::Nodes(*v),
            Info::Pv(ms) => InfoV::Pv(views(ms@)),
            Info::MultiPv(v) => InfoV::MultiPv(*v),
            Info::Score(s) => InfoV::Score(*s),
            Info::CurrMove(m) => InfoV::CurrMove(m@),
            Info::CurrMoveNumber(v) => InfoV::CurrMoveNumber(*v),
            Info::HashFull(p) => InfoV::HashFull(p.spec_amount()),
            Info::Nps(v) => InfoV::Nps(*v),
            Info::TbHits(v) => InfoV::TbHits(*v),
            Info::SbHits(v) => InfoV::SbHits(*v),
            Info::CpuLoad(p) => InfoV::CpuLoad(p.spec_amount()),
            Info::Refutation(ms) => InfoV::Refutation(views(ms@)),
            Info::CurrLine { cpu_num, moves } => InfoV::CurrLine {
                cpu_num: *cpu_num,
                moves: views(moves@),
            },
        }
    }
}

/// The body of an engine option announcement: its type and constraints.
#[derive(Debug, Clone, PartialEq, Eq)]
pub enum OptBody {
    Check(bool),
    Spin { default: i64, min: i64, max: i64 },
    Combo { default: OptComboVar, vars: Vec<OptComboVar> },
    Button,
    String(UciString),
}

/// The view of an option body.
pub enum OptBodyV {
    Check(bool),
    Spin { default: i64, min: i64, max: i64 },
    Combo { default: Seq<char>, vars: Seq<Seq<char>> },
    Button,
    String(Seq<char>),
}

impl View for OptBody {
    type V = OptBodyV;

    open spec fn view(&self) -> OptBodyV {
        match self {
            OptBody::Check(v) => OptBodyV::Check(*v),
            OptBody::Spin { default, min, max } => OptBodyV::Spin {
                default: *default,
                min: *min,
                max: *max,
            },
            OptBody::Combo { default, vars } => OptBodyV::Combo {
                default: default@,
                vars: views(vars@),
            },
            OptBody::Button => OptBodyV::Button,
            OptBody::String(s) => OptBodyV::String(s@),
        }
    }
}

/// The parameters of a `go` command, exactly as parsed: every optional field
/// is kept, and no precedence is applied among them. Times are milliseconds.
#[derive(Debug, Clone, PartialEq, Eq, Default)]
pub struct Go {
    pub searchmoves: Option<Vec<UciMove>>,
    pub ponder: Option<()>,
    pub infinite: Option<()>,
    pub wtime: Option<u64>,
    pub btime: Option<u64>,
    pub winc: Option<u64>,
    pub binc: Option<u64>,
    pub movestogo: Option<u64>,
    pub mate: Option<u64>,
    pub depth: Option<u64>,
    pub nodes: Option<u32>,
    pub movetime: Option<u64>,
}

/// The view of a `go` command's parameters.
pub struct GoV {
    pub searchmoves: Option<Seq<Seq<char>>>,
    pub ponder: Option<()>,
    pub infinite: Option<()>,
    pub wtime: Option<u64>,
    pub btime: Option<u64>,
    pub winc: Option<u64>,
    pub binc: Option<u64>,
    pub movestogo: Option<u64>,
    pub mate: Option<u64>,
    pub depth: Option<u64>,
    pub nodes: Option<u32>,
    pub movetime: Option<u64>,
}

impl View for Go {
    type V = GoV;

    open spec fn view(&self) -> GoV {
        GoV {
            searchmoves: match &self.searchmoves {
                Some(ms) => Some(views(ms@)),
                None => None,
            },
            ponder: self.ponder,
            infinite: self.infinite,
            wtime: self.wtime,
            btime: self.btime,
            winc: self.winc,
            binc: self.binc,
            movestogo: self.movestogo,
            mate: self.mate,
            depth: self.depth,
            nodes: self.nodes,
            movetime: self.movetime,
        }
    }
}

impl GoV {
    /// The empty record: no parameter given.
    pub open spec fn empty() -> GoV {
        GoV {
            searchmoves: None,
            ponder: None,
            infinite: None,
            wtime: None,
            btime: None,
            winc: None,
            binc: None,
            movestogo: None,
            mate: None,
            depth: None,
            nodes: None,
            movetime: None,
        }
    }
}

/// A command from the GUI to the engine.
#[derive(Debug, Clone, PartialEq, Eq)]
pub enum Command {
    Uci,
    Debug(bool),
    IsReady,
    SetOption { name: OptName, value: Option<UciString> },
    Register(Register),
    UciNewGame,
    Position { startpos: RawBoard, moves: Vec<UciMove> },
    Go(Go),
    Stop,
    PonderHit,
    Quit,
}

/// The view of a command.
pub enum CommandV {
    Uci,
    Debug(bool),
    IsReady,
    SetOption { name: Seq<char>, value: Option<Seq<char>> },
    Register(RegisterV),
    UciNewGame,
    Position { startpos: Seq<char>, moves: Seq<Seq<char>> },
    Go(GoV),
    Stop,
    PonderHit,
    Quit,
}

impl View for Command {
    type V = CommandV;

    open spec fn view(&self) -> CommandV {
        match self {
            Command::Uci => CommandV::Uci,
            Command::Debug(v) => CommandV::Debug(*v),
            Command::IsReady => CommandV::IsReady,
            Command::SetOption { name, value } => CommandV::SetOption {
                name: name@,
                value: ov(*value),
            },
            Command::Register(r) => CommandV::Register(r@),
            Command::UciNewGame => CommandV::UciNewGame,
            Command::Position { startpos, moves } => CommandV::Position {
                startpos: startpos@,
                moves: views(moves@),
            },
            Command::Go(g) => CommandV::Go(g@),
            Command::Stop => CommandV::Stop,
            Command::PonderHit => CommandV::PonderHit,
            Command::Quit => CommandV::Quit,
        }
    }
}

/// A message from the engine to the GUI.
#[derive(Debug, Clone, PartialEq, Eq)]
pub enum Message {
    Id(Id),
    UciOk,
    ReadyOk,
    BestMove { bestmove: UciMove, ponder: Option<UciMove> },
    CopyProtection(TriStatus),
    Registration(TriStatus),
    Info { info: Vec<Info>, string: Option<UciString> },
    Option { name: OptName, body: OptBody },
}

/// The view of a message.
pub enum MessageV {
    Id(IdV),
    UciOk,
    ReadyOk,
    BestMove { bestmove: Seq<char>, ponder: Option<Seq<char>> },
    CopyProtection(TriStatus),
    Registration(TriStatus),
    Info { info: Seq<InfoV>, string: Option<Seq<char>> },
    Option { name: Seq<char>, body: OptBodyV },
}

impl View for Message {
    type V = MessageV;

    open spec fn view(&self) -> MessageV {
        match self {
            Message::Id(id) => MessageV::Id(id@),
            Message::UciOk => MessageV::UciOk,
            Message::ReadyOk => MessageV::ReadyOk,
            Message::BestMove { bestmove, ponder } => MessageV::BestMove {
                bestmove: bestmove@,
                ponder: ov(*ponder),
            },
            Message::CopyProtection(s) => MessageV::CopyProtection(*s),
            Message::Registration(s) => MessageV::Registration(*s),
            Message::Info { info, string } => MessageV::Info {
                info: views(info@),
                string: ov(*string),
            },
            Message::Option { name, body } => MessageV::Option { name: name@, body: body@ },
        }
    }
}

} // verus!
