//! What the parser of the byte stream from the application hands the terminal:
//! printable characters and control functions, and the operation each one asks for.
use vstd::prelude::*;

use super::sgr::{parse_sgr, sgr_actions, StyleAction};

verus! {

/// A parameter of a control function: left out, or a number.
#[derive(Clone, Copy, Debug, PartialEq, Eq, Structural)]
pub enum Parameter {
    Default,
    Value(u16),
}

/// The number of a parameter, or `d` where it was left out.
pub open spec fn param_or(p: Parameter, d: u16) -> u16 {
    match p {
        Parameter::Default => d,
        Parameter::Value(v) => v,
    }
}

impl Parameter {
    /// The number of this parameter, or `d` where it was left out.
    pub fn value_or(self, d: u16) -> (v: u16)
        ensures
            v == param_or(self, d),
    {
        match self {
            Parameter::Default => d,
            Parameter::Value(v) => v,
        }
    }
}

/// A control function: a C0 control (`start` is the control byte), an escape
/// sequence (`start` is ESC), or a control sequence (`start` is `[`), with its
/// parameters, intermediate bytes and final byte.
#[derive(Debug)]
pub struct ControlFunction {
    pub start: u8,
    pub params: Vec<Parameter>,
    pub bytes: Vec<u8>,
    pub end: u8,
}

/// One step of the parsed byte stream.
#[derive(Debug)]
pub enum TerminalInput {
    /// The parser needs more bytes.
    Continue,
    /// A character to print.
    Char(char),
    /// A control function.
    Control(ControlFunction),
}

/// What the terminal is asked to do.
pub enum Op {
    Nothing,
    /// Print a character at the cursor.
    Print(char),
    /// Move the cursor one column left.
    Backspace,
    /// Back to the default style.
    ResetStyle,
    /// Apply these style changes.
    Style(Seq<StyleAction>),
    /// Cursor up, down, right and left by so many.
    Up(u16),
    Down(u16),
    Forward(u16),
    Back(u16),
    /// Cursor to column, row.
    Goto(u16, u16),
    GotoRow(u16),
    GotoColumn(u16),
    /// Erase below (0), above (1) or all (2) of the screen; 3 erases nothing.
    EraseDisplay(u16),
    /// Erase from the cursor to the end of its row.
    EraseLine,
    /// Scroll by so many rows.
    Scroll(u16),
    /// Insert blank rows at the cursor row.
    InsertLines(u16),
    /// Report the cursor position to the application.
    ReportCursor,
    /// Insert, delete or erase characters at the cursor.
    InsertChars(u16),
    DeleteChars(u16),
    EraseChars(u16),
    CarriageReturn,
    LineFeed,
    SaveCursor,
    RestoreCursor,
    /// Swap the screen with the alternate screen.
    SwitchScreen,
    /// Swap the screen with the alternate screen, saving the cursor of the one
    /// left and restoring the saved cursor of the one entered.
    SwitchScreenSaving,
}

/// The parameters of a control function as numbers, 0 where left out.
pub open spec fn sgr_numbers(p: Seq<Parameter>) -> Seq<u16> {
    p.map_values(|q: Parameter| param_or(q, 0))
}

/// The operation a control function asks for. The first rule that matches wins.
pub open spec fn control_op(cf: ControlFunction) -> Op {
    let s = cf.start;
    let e = cf.end;
    let p = cf.params@;
    let n = p.len();
    if s == 8 && n == 0 {
        Op::Backspace
    } else if s == 91 && n == 0 && e == 109 {
        Op::ResetStyle
    } else if s == 91 && e == 109 {
        match sgr_actions(sgr_numbers(p)) {
            Some(a) => Op::Style(a),
            None => Op::Nothing,
        }
    } else if s == 91 && n == 1 && e == 65 {
        Op::Up(param_or(p[0], 1))
    } else if s == 91 && n == 1 && e == 66 {
        Op::Down(param_or(p[0], 1))
    } else if s == 91 && n == 1 && e == 67 {
        Op::Forward(param_or(p[0], 1))
    } else if s == 91 && n == 1 && e == 68 {
        Op::Back(param_or(p[0], 1))
    } else if s == 91 && n == 2 && e == 72 && p[0] is Value && p[1] is Value {
        Op::Goto(param_or(p[1], 0), param_or(p[0], 0))
    } else if s == 91 && n == 1 && e == 72 && p[0] is Default {
        Op::Goto(1, 1)
    } else if s == 91 && n == 1 && e == 100 && p[0] is Value {
        Op::GotoRow(param_or(p[0], 0))
    } else if s == 91 && n == 1 && e == 71 && p[0] is Value {
        Op::GotoColumn(param_or(p[0], 0))
    } else if s == 91 && n == 1 && e == 74 {
        Op::EraseDisplay(param_or(p[0], 0))
    } else if s == 91 && n == 1 && e == 75 && p[0] is Default {
        Op::EraseLine
    } else if s == 91 && n == 1 && e == 77 {
        Op::Scroll(param_or(p[0], 1))
    } else if s == 91 && n == 1 && e == 76 {
        Op::InsertLines(param_or(p[0], 1))
    } else if s == 91 && n == 1 && e == 110 && p[0] == Parameter::Value(6) {
        Op::ReportCursor
    } else if s == 91 && n == 1 && e == 64 {
        Op::InsertChars(param_or(p[0], 1))
    } else if s == 91 && n == 1 && e == 80 {
        Op::DeleteChars(param_or(p[0], 1))
    } else if s == 91 && n == 1 && e == 88 {
        Op::EraseChars(param_or(p[0], 1))
    } else if s == 13 && n == 0 {
        Op::CarriageReturn
    } else if s == 10 && n == 0 {
        Op::LineFeed
    } else if (s == 27 && n == 0 && e == 55) || (s == 91 && n == 0 && e == 115) {
        Op::SaveCursor
    } else if (s == 27 && n == 0 && e == 56) || (s == 91 && n == 0 && e == 117) {
        Op::RestoreCursor
    } else if s == 91 && n == 2 && e == 102 {
        Op::Goto(param_or(p[1], 1), param_or(p[0], 1))
    } else if s == 91 && n == 1 && (e == 104 || e == 108) && p[0] is Value {
        mode_action(param_or(p[0], 0))@
    } else {
        Op::Nothing
    }
}

/// The operation an input asks for.
pub open spec fn input_op(i: TerminalInput) -> Op {
    match i {
        TerminalInput::Continue => Op::Nothing,
        TerminalInput::Char(c) => Op::Print(c),
        TerminalInput::Control(cf) => control_op(cf),
    }
}

/// An operation, with its style changes in a vector.
pub enum Action {
    Nothing,
    Print(char),
    Backspace,
    ResetStyle,
    Style(Vec<StyleAction>),
    Up(u16),
    Down(u16),
    Forward(u16),
    Back(u16),
    Goto(u16, u16),
    GotoRow(u16),
    GotoColumn(u16),
    EraseDisplay(u16),
    EraseLine,
    Scroll(u16),
    InsertLines(u16),
    ReportCursor,
    InsertChars(u16),
    DeleteChars(u16),
    EraseChars(u16),
    CarriageReturn,
    LineFeed,
    SaveCursor,
    RestoreCursor,
    SwitchScreen,
    SwitchScreenSaving,
}

impl View for Action {
    type V = Op;

    open spec fn view(&self) -> Op {
        match self {
            Action::Nothing => Op::Nothing,
            Action::Print(c) => Op::Print(*c),
            Action::Backspace => Op::Backspace,
            Action::ResetStyle => Op::ResetStyle,
            Action::Style(v) => Op::Style(v@),
            Action::Up(n) => Op::Up(*n),
            Action::Down(n) => Op::Down(*n),
            Action::Forward(n) => Op::Forward(*n),
            Action::Back(n) => Op::Back(*n),
            Action::Goto(x, y) => Op::Goto(*x, *y),
            Action::GotoRow(y) => Op::GotoRow(*y),
            Action::GotoColumn(x) => Op::GotoColumn(*x),
            Action::EraseDisplay(n) => Op::EraseDisplay(*n),
            Action::EraseLine => Op::EraseLine,
            Action::Scroll(n) => Op::Scroll(*n),
            Action::InsertLines(n) => Op::InsertLines(*n),
            Action::ReportCursor => Op::ReportCursor,
            Action::InsertChars(n) => Op::InsertChars(*n),
            Action::DeleteChars(n) => Op::DeleteChars(*n),
            Action::EraseChars(n) => Op::EraseChars(*n),
            Action::CarriageReturn => Op::CarriageReturn,
            Action::LineFeed => Op::LineFeed,
            Action::SaveCursor => Op::SaveCursor,
            Action::RestoreCursor => Op::RestoreCursor,
            Action::SwitchScreen => Op::SwitchScreen,
            Action::SwitchScreenSaving => Op::SwitchScreenSaving,
        }
    }
}

fn numbers(p: &Vec<Parameter>) -> (v: Vec<u16>)
    ensures
        v@ == sgr_numbers(p@),
{
    let mut v: Vec<u16> = Vec::new();
    for i in 0..p.len()
        invariant
            v@ == sgr_numbers(p@.take(i as int)),
    {
        v.push(p[i].value_or(0));
        assert(sgr_numbers(p@.take(i + 1)) =~= sgr_numbers(p@.take(i as int)).push(param_or(p@[i as int], 0)));
    }
    assert(p@.take(p@.len() as int) =~= p@);
    v
}

/// The action of a set-mode or reset-mode control sequence with parameter `n`:
/// 1047 switches screens, 1048 saves the cursor, 1049 switches screens saving the
/// cursor; any other mode does nothing.
#[verifier::allow_in_spec]
pub fn mode_action(n: u16) -> Action
    returns
        if n == 1047 {
            Action::SwitchScreen
        } else if n == 1048 {
            Action::SaveCursor
        } else if n == 1049 {
            Action::SwitchScreenSaving
        } else {
            Action::Nothing
        },
{
    if n == 1047 {
        Action::SwitchScreen
    } else if n == 1048 {
        Action::SaveCursor
    } else if n == 1049 {
        Action::SwitchScreenSaving
    } else {
        Action::Nothing
    }
}

fn is_value(p: Parameter) -> (b: bool)
    ensures
        b == (p is Value),
{
    match p {
        Parameter::Value(_) => true,
        Parameter::Default => false,
    }
}

/// The operation a control function asks for.
pub fn decode_control(cf: &ControlFunction) -> (a: Action)
    ensures
        a@ == control_op(*cf),
{
    let s = cf.start;
    let e = cf.end;
    let p = &cf.params;
    let n = p.len();
    if s == 8 && n == 0 {
        Action::Backspace
    } else if s == 91 && n == 0 && e == 109 {
        Action::ResetStyle
    } else if s == 91 && e == 109 {
        match parse_sgr(&numbers(p)) {
            Some(a) => Action::Style(a),
            None => Action::Nothing,
        }
    } else if s == 91 && n == 1 && e == 65 {
        Action::Up(p[0].value_or(1))
    } else if s == 91 && n == 1 && e == 66 {
        Action::Down(p[0].value_or(1))
    } else if s == 91 && n == 1 && e == 67 {
        Action::Forward(p[0].value_or(1))
    } else if s == 91 && n == 1 && e == 68 {
        Action::Back(p[0].value_or(1))
    } else if s == 91 && n == 2 && e == 72 && is_value(p[0]) && is_value(p[1]) {
        Action::Goto(p[1].value_or(0), p[0].value_or(0))
    } else if s == 91 && n == 1 && e == 72 && !is_value(p[0]) {
        Action::Goto(1, 1)
    } else if s == 91 && n == 1 && e == 100 && is_value(p[0]) {
        Action::GotoRow(p[0].value_or(0))
    } else if s == 91 && n == 1 && e == 71 && is_value(p[0]) {
        Action::GotoColumn(p[0].value_or(0))
    } else if s == 91 && n == 1 && e == 74 {
        Action::EraseDisplay(p[0].value_or(0))
    } else if s == 91 && n == 1 && e == 75 && !is_value(p[0]) {
        Action::EraseLine
    } else if s == 91 && n == 1 && e == 77 {
        Action::Scroll(p[0].value_or(1))
    } else if s == 91 && n == 1 && e == 76 {
        Action::InsertLines(p[0].value_or(1))
    } else if s == 91 && n == 1 && e == 110 && p[0] == Parameter::Value(6) {
        Action::ReportCursor
    } else if s == 91 && n == 1 && e == 64 {
        Action::InsertChars(p[0].value_or(1))
    } else if s == 91 && n == 1 && e == 80 {
        Action::DeleteChars(p[0].value_or(1))
    } else if s == 91 && n == 1 && e == 88 {
        Action::EraseChars(p[0].value_or(1))
    } else if s == 13 && n == 0 {
        Action::CarriageReturn
    } else if s == 10 && n == 0 {
        Action::LineFeed
    } else if (s == 27 && n == 0 && e == 55) || (s == 91 && n == 0 && e == 115) {
        Action::SaveCursor
    } else if (s == 27 && n == 0 && e == 56) || (s == 91 && n == 0 && e == 117) {
        Action::RestoreCursor
    } else if s == 91 && n == 2 && e == 102 {
        Action::Goto(p[1].value_or(1), p[0].value_or(1))
    } else if s == 91 && n == 1 && (e == 104 || e == 108) && is_value(p[0]) {
        mode_action(p[0].value_or(0))
    } else {
        Action::Nothing
    }
}

/// The operation an input asks for.
pub fn decode(i: &TerminalInput) -> (a: Action)
    ensures
        a@ == input_op(*i),
{
    match i {
        TerminalInput::Continue => Action::Nothing,
        TerminalInput::Char(c) => Action::Print(*c),
        TerminalInput::Control(cf) => decode_control(cf),
    }
}

} // verus!
