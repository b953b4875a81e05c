//! The interpreter: from a parsed command to what it asks for, and from
//! there to the document, the history and the variables.

use vstd::prelude::*;
use crate::document::{
    clamp_to_row, is_next_word, is_prev_word, ordered, spec_down, spec_left, spec_right, spec_up,
    Document, Effect,
};
use crate::event::Event;
use crate::row_store::{EditError, Position};
use crate::script::{spec_arity, spec_parse, arity, parse_line, Arg, ArgV, Command, Op, Val, Value};
use crate::undo::UndoEngine;
use crate::vars::{resolve, spec_resolve, VarTable};

verus! {

/// What a command asks for, once its arguments have their values.
#[derive(Debug)]
pub enum Plan {
    /// A cursor step, an undo or a redo: an operation without arguments.
    Step(Op),
    MoveTo(Position),
    Insert(Vec<char>),
    Delete(Position, Position),
    Assign(Vec<char>, Value),
    Jump(usize),
    /// A condition that did not hold: go on with the next line.
    Skip,
    Quit,
    Save,
    Open(Vec<char>),
    Search(Vec<char>),
    Run(Vec<char>),
}

/// A plan, as contracts speak of it.
pub enum PlanV {
    Step(Op),
    MoveTo(Position),
    Insert(Seq<char>),
    Delete(Position, Position),
    Assign(Seq<char>, Val),
    Jump(usize),
    Skip,
    Quit,
    Save,
    Open(Seq<char>),
    Search(Seq<char>),
    Run(Seq<char>),
}

impl View for Plan {
    type V = PlanV;

    open spec fn view(&self) -> PlanV {
        match self {
            Plan::Step(op) => PlanV::Step(*op),
            Plan::MoveTo(p) => PlanV::MoveTo(*p),
            Plan::Insert(t) => PlanV::Insert(t@),
            Plan::Delete(s, e) => PlanV::Delete(*s, *e),
            Plan::Assign(n, v) => PlanV::Assign(n@, v@),
            Plan::Jump(n) => PlanV::Jump(*n),
            Plan::Skip => PlanV::Skip,
            Plan::Quit => PlanV::Quit,
            Plan::Save => PlanV::Save,
            Plan::Open(t) => PlanV::Open(t@),
            Plan::Search(t) => PlanV::Search(t@),
            Plan::Run(t) => PlanV::Run(t@),
        }
    }
}

/// What the caller is to do after a command ran. The interpreter touches
/// neither files nor the process: it says what is wanted.
#[derive(Debug)]
pub enum Outcome {
    /// Nothing: go on with the next line.
    Done,
    /// Go on with the line of this index.
    Jump(usize),
    Quit,
    Save,
    Open(Vec<char>),
    Search(Vec<char>),
    Run(Vec<char>),
}

/// The argument as an index: a number that is not negative and fits.
pub open spec fn spec_num(a: ArgV, vars: Map<Seq<char>, Val>) -> Result<usize, EditError> {
    match spec_resolve(a, vars) {
        Err(e) => Err(e),
        Ok(Val::Num(n)) => if 0 <= n <= usize::MAX {
            Ok(n as usize)
        } else {
            Err(EditError::ArgumentError)
        },
        Ok(_) => Err(EditError::ArgumentError),
    }
}

/// The argument as a text.
pub open spec fn spec_str(a: ArgV, vars: Map<Seq<char>, Val>) -> Result<Seq<char>, EditError> {
    match spec_resolve(a, vars) {
        Err(e) => Err(e),
        Ok(Val::Str(s)) => Ok(s),
        Ok(_) => Err(EditError::ArgumentError),
    }
}

/// The argument as a truth value.
pub open spec fn spec_bool(a: ArgV, vars: Map<Seq<char>, Val>) -> Result<bool, EditError> {
    match spec_resolve(a, vars) {
        Err(e) => Err(e),
        Ok(Val::Bool(b)) => Ok(b),
        Ok(_) => Err(EditError::ArgumentError),
    }
}

/// Two arguments as a position: a row, then a column.
pub open spec fn spec_pos(a: ArgV, b: ArgV, vars: Map<Seq<char>, Val>) -> Result<Position, EditError> {
    match spec_num(a, vars) {
        Err(e) => Err(e),
        Ok(row) => match spec_num(b, vars) {
            Err(e) => Err(e),
            Ok(col) => Ok(Position { row, col }),
        },
    }
}

fn num_arg(a: &Arg, vars: &VarTable) -> (res: Result<usize, EditError>)
    requires
        vars.wf(),
    ensures
        res == spec_num(a@, vars@),
{
    match resolve(a, vars) {
        Err(e) => Err(e),
        Ok(Value::Num(n)) => {
            if n >= 0 && n as u64 <= usize::MAX as u64 {
                Ok(n as usize)
            } else {
                Err(EditError::ArgumentError)
            }
        },
        Ok(_) => Err(EditError::ArgumentError),
    }
}

fn str_arg(a: &Arg, vars: &VarTable) -> (res: Result<Vec<char>, EditError>)
    requires
        vars.wf(),
    ensures
        match spec_str(a@, vars@) {
            Ok(s) => res is Ok && res->Ok_0@ == s,
            Err(e) => res is Err && res->Err_0 == e,
        },
{
    match resolve(a, vars) {
        Err(e) => Err(e),
        Ok(Value::Str(s)) => Ok(s),
        Ok(_) => Err(EditError::ArgumentError),
    }
}

fn bool_arg(a: &Arg, vars: &VarTable) -> (res: Result<bool, EditError>)
    requires
        vars.wf(),
    ensures
        res == spec_bool(a@, vars@),
{
    match resolve(a, vars) {
        Err(e) => Err(e),
        Ok(Value::Bool(b)) => Ok(b),
        Ok(_) => Err(EditError::ArgumentError),
    }
}

fn pos_arg(a: &Arg, b: &Arg, vars: &VarTable) -> (res: Result<Position, EditError>)
    requires
        vars.wf(),
    ensures
        res == spec_pos(a@, b@, vars@),
{
    match num_arg(a, vars) {
        Err(e) => Err(e),
        Ok(row) => match num_arg(b, vars) {
            Err(e) => Err(e),
            Ok(col) => Ok(Position { row, col }),
        },
    }
}

/// What a move asks for.
pub open spec fn spec_plan_move(a: ArgV, b: ArgV, vars: Map<Seq<char>, Val>) -> Result<PlanV, EditError> {
    match spec_pos(a, b, vars) {
        Err(e) => Err(e),
        Ok(p) => Ok(PlanV::MoveTo(p)),
    }
}

/// What a deletion asks for.
pub open spec fn spec_plan_delete(a: ArgV, b: ArgV, c: ArgV, d: ArgV, vars: Map<Seq<char>, Val>) -> Result<
    PlanV,
    EditError,
> {
    match spec_pos(a, b, vars) {
        Err(e) => Err(e),
        Ok(s) => match spec_pos(c, d, vars) {
            Err(e) => Err(e),
            Ok(e) => Ok(PlanV::Delete(s, e)),
        },
    }
}

/// What an operation on one text asks for.
pub open spec fn spec_plan_text(op: Op, a: ArgV, vars: Map<Seq<char>, Val>) -> Result<PlanV, EditError> {
    match spec_str(a, vars) {
        Err(e) => Err(e),
        Ok(t) => Ok(
            match op {
                Op::Insert => PlanV::Insert(t),
                Op::Open => PlanV::Open(t),
                Op::Search => PlanV::Search(t),
                _ => PlanV::Run(t),
            },
        ),
    }
}

/// What a jump asks for.
pub open spec fn spec_plan_jump(a: ArgV, vars: Map<Seq<char>, Val>) -> Result<PlanV, EditError> {
    match spec_num(a, vars) {
        Err(e) => Err(e),
        Ok(n) => Ok(PlanV::Jump(n)),
    }
}

/// What a condition asks for: a jump where it holds, nothing where it does not.
pub open spec fn spec_plan_if(a: ArgV, b: ArgV, vars: Map<Seq<char>, Val>) -> Result<PlanV, EditError> {
    match spec_bool(a, vars) {
        Err(e) => Err(e),
        Ok(c) => match spec_num(b, vars) {
            Err(e) => Err(e),
            Ok(n) => if c {
                Ok(PlanV::Jump(n))
            } else {
                Ok(PlanV::Skip)
            },
        },
    }
}

/// What an assignment asks for: its first argument names the variable.
pub open spec fn spec_plan_assign(a: ArgV, b: ArgV, vars: Map<Seq<char>, Val>) -> Result<PlanV, EditError> {
    match a {
        ArgV::Lit(_) => Err(EditError::ArgumentError),
        ArgV::Var(name) => match spec_resolve(b, vars) {
            Err(e) => Err(e),
            Ok(v) => Ok(PlanV::Assign(name, v)),
        },
    }
}

/// What an operation with these arguments asks for under these variables.
/// Arguments get their values from left to right, and the first that has
/// none, or one of the wrong type, decides the error.
pub open spec fn spec_plan(op: Op, args: Seq<ArgV>, vars: Map<Seq<char>, Val>) -> Result<
    PlanV,
    EditError,
> {
    if args.len() != spec_arity(op) {
        Err(EditError::ArgumentError)
    } else {
        match op {
            Op::Quit => Ok(PlanV::Quit),
            Op::Save => Ok(PlanV::Save),
            Op::Move => spec_plan_move(args[0], args[1], vars),
            Op::Delete => spec_plan_delete(args[0], args[1], args[2], args[3], vars),
            Op::Insert | Op::Open | Op::Search | Op::Run => spec_plan_text(op, args[0], vars),
            Op::Jump => spec_plan_jump(args[0], vars),
            Op::If => spec_plan_if(args[0], args[1], vars),
            Op::Assign => spec_plan_assign(args[0], args[1], vars),
            _ => Ok(PlanV::Step(op)),
        }
    }
}

fn plan_move(a: &Arg, b: &Arg, vars: &VarTable) -> (res: Result<Plan, EditError>)
    requires
        vars.wf(),
    ensures
        match spec_plan_move(a@, b@, vars@) {
            Ok(p) => res is Ok && res->Ok_0@ == p,
            Err(e) => res is Err && res->Err_0 == e,
        },
{
    match pos_arg(a, b, vars) {
        Err(e) => Err(e),
        Ok(p) => Ok(Plan::MoveTo(p)),
    }
}

fn plan_delete(a: &Arg, b: &Arg, c: &Arg, d: &Arg, vars: &VarTable) -> (res: Result<Plan, EditError>)
    requires
        vars.wf(),
    ensures
        match spec_plan_delete(a@, b@, c@, d@, vars@) {
            Ok(p) => res is Ok && res->Ok_0@ == p,
            Err(e) => res is Err && res->Err_0 == e,
        },
{
    match pos_arg(a, b, vars) {
        Err(e) => Err(e),
        Ok(s) => match pos_arg(c, d, vars) {
            Err(e) => Err(e),
            Ok(e) => Ok(Plan::Delete(s, e)),
        },
    }
}

fn plan_text(op: Op, a: &Arg, vars: &VarTable) -> (res: Result<Plan, EditError>)
    requires
        vars.wf(),
    ensures
        match spec_plan_text(op, a@, vars@) {
            Ok(p) => res is Ok && res->Ok_0@ == p,
            Err(e) => res is Err && res->Err_0 == e,
        },
{
    match str_arg(a, vars) {
        Err(e) => Err(e),
        Ok(t) => Ok(
            match op {
                Op::Insert => Plan::Insert(t),
                Op::Open => Plan::Open(t),
                Op::Search => Plan::Search(t),
                _ => Plan::Run(t),
            },
        ),
    }
}

fn plan_jump(a: &Arg, vars: &VarTable) -> (res: Result<Plan, EditError>)
    requires
        vars.wf(),
    ensures
        match spec_plan_jump(a@, vars@) {
            Ok(p) => res is Ok && res->Ok_0@ == p,
            Err(e) => res is Err && res->Err_0 == e,
        },
{
    match num_arg(a, vars) {
        Err(e) => Err(e),
        Ok(n) => Ok(Plan::Jump(n)),
    }
}

fn plan_if(a: &Arg, b: &Arg, vars: &VarTable) -> (res: Result<Plan, EditError>)
    requires
        vars.wf(),
    ensures
        match spec_plan_if(a@, b@, vars@) {
            Ok(p) => res is Ok && res->Ok_0@ == p,
            Err(e) => res is Err && res->Err_0 == e,
        },
{
    match bool_arg(a, vars) {
        Err(e) => Err(e),
        Ok(c) => match num_arg(b, vars) {
            Err(e) => Err(e),
            Ok(n) => if c {
                Ok(Plan::Jump(n))
            } else {
                Ok(Plan::Skip)
            },
        },
    }
}

fn plan_assign(a: &Arg, b: &Arg, vars: &VarTable) -> (res: Result<Plan, EditError>)
    requires
        vars.wf(),
    ensures
        match spec_plan_assign(a@, b@, vars@) {
            Ok(p) => res is Ok && res->Ok_0@ == p,
            Err(e) => res is Err && res->Err_0 == e,
        },
{
    match a {
        Arg::Lit(_) => Err(EditError::ArgumentError),
        Arg::Var(name) => match resolve(b, vars) {
            Err(e) => Err(e),
            Ok(v) => {
                let n = crate::script::copy_from(name, 0);
                assert(name@.skip(0) =~= name@);
                Ok(Plan::Assign(n, v))
            },
        },
    }
}

/// Gives the arguments of a command their values and says what it asks for.
pub fn plan(cmd: &Command, vars: &VarTable) -> (res: Result<Plan, EditError>)
    requires
        vars.wf(),
    ensures
        match spec_plan(cmd.op, cmd.args_view(), vars@) {
            Ok(p) => res is Ok && res->Ok_0@ == p,
            Err(e) => res is Err && res->Err_0 == e,
        },
{
    if cmd.args.len() != arity(cmd.op) {
        return Err(EditError::ArgumentError);
    }
    let args = &cmd.args;
    let ghost view = cmd.args_view();
    assert(forall|i: int| 0 <= i < args@.len() ==> (#[trigger] args@[i])@ == view[i]);
    match cmd.op {
        Op::Quit => Ok(Plan::Quit),
        Op::Save => Ok(Plan::Save),
        Op::Move => plan_move(&args[0], &args[1], vars),
        Op::Delete => plan_delete(&args[0], &args[1], &args[2], &args[3], vars),
        Op::Insert | Op::Open | Op::Search | Op::Run => plan_text(cmd.op, &args[0], vars),
        Op::Jump => plan_jump(&args[0], vars),
        Op::If => plan_if(&args[0], &args[1], vars),
        Op::Assign => plan_assign(&args[0], &args[1], vars),
        _ => Ok(Plan::Step(cmd.op)),
    }
}

/// The answer without what it carries: whether the command went through.
pub open spec fn went_through(res: Result<Outcome, EditError>) -> Result<(), EditError> {
    match res {
        Ok(_) => Ok(()),
        Err(e) => Err(e),
    }
}

/// Document, history and variables are as they were.
pub open spec fn untouched(
    d0: Document,
    h0: UndoEngine,
    v0: Map<Seq<char>, Val>,
    d1: Document,
    h1: UndoEngine,
    v1: Map<Seq<char>, Val>,
) -> bool {
    d1.same_as(&d0) && h1 == h0 && v1 == v0
}

/// `d1` is `d0` with the cursor moved as `op` says; nothing else changed.
pub open spec fn steps(op: Op, d0: Document, d1: Document) -> bool {
    let rows = d0.store@;
    let c = d0.cursor;
    &&& d1.same_content(&d0)
    &&& d1.anchor == d0.anchor
    &&& match op {
        Op::Left => d1.cursor == spec_left(rows, c),
        Op::Right => d1.cursor == spec_right(rows, c),
        Op::Up => d1.cursor == spec_up(rows, c),
        Op::Down => d1.cursor == spec_down(rows, c),
        Op::Home => d1.cursor == (Position { row: c.row, col: 0 }),
        Op::End => d1.cursor.row == c.row && d1.cursor.col == rows[c.row as int].len(),
        Op::WordLeft => if c.col == 0 {
            d1.cursor == spec_left(rows, c)
        } else {
            d1.cursor.row == c.row && is_prev_word(rows[c.row as int], c.col as int, d1.cursor.col as int)
        },
        Op::WordRight => if c.col == rows[c.row as int].len() {
            d1.cursor == spec_right(rows, c)
        } else {
            d1.cursor.row == c.row && is_next_word(rows[c.row as int], c.col as int, d1.cursor.col as int)
        },
        _ => d1.cursor == c,
    }
}

/// The effect was applied to the document and, where that went through, its
/// event recorded in the history; where it did not, nothing changed.
pub open spec fn edits(
    effect: Effect,
    d0: Document,
    h0: UndoEngine,
    d1: Document,
    h1: UndoEngine,
    res: Result<Outcome, EditError>,
) -> bool {
    exists|r: Result<Event, EditError>| #[trigger]
        d0.applied(effect, d1, r) && match r {
            Ok(ev) => h0.records(ev, h1) && res is Ok && res->Ok_0 is Done,
            Err(e) => h1 == h0 && res is Err && res->Err_0 == e,
        }
}

/// The effect of putting `text` in: it takes the place of the selection
/// where there is one, and goes in at the cursor where there is none; a
/// single character at the cursor counts as typed.
pub open spec fn insertion(d0: Document, text: Vec<char>) -> Effect {
    match d0.anchor {
        Some(a) => Effect::Replace { start: ordered(a, d0.cursor).0, end: ordered(a, d0.cursor).1, text },
        None => Effect::Insert { at: d0.cursor, text, typed: text@.len() == 1 },
    }
}

/// What carrying out a plan does to document, history and variables, and
/// what it answers.
pub open spec fn spec_performs(
    plan: Plan,
    d0: Document,
    h0: UndoEngine,
    v0: Map<Seq<char>, Val>,
    d1: Document,
    h1: UndoEngine,
    v1: Map<Seq<char>, Val>,
    res: Result<Outcome, EditError>,
) -> bool {
    match plan {
        Plan::Step(op) => v1 == v0 && match op {
            Op::Undo => h0.undoes(d0, h1, d1, went_through(res)) && (res is Ok ==> res->Ok_0 is Done),
            Op::Redo => h0.redoes(d0, h1, d1, went_through(res)) && (res is Ok ==> res->Ok_0 is Done),
            _ => h1 == h0 && res is Ok && res->Ok_0 is Done && steps(op, d0, d1),
        },
        Plan::MoveTo(p) => v1 == v0 && h1 == h0 && res is Ok && res->Ok_0 is Done
            && d1.same_content(&d0) && d1.anchor == d0.anchor && d1.cursor == clamp_to_row(
            d0.store@,
            if p.row < d0.store@.len() {
                p.row as int
            } else {
                d0.store@.len() - 1
            },
            p.col,
        ),
        Plan::Insert(text) => v1 == v0 && edits(insertion(d0, text), d0, h0, d1, h1, res),
        Plan::Delete(start, end) => v1 == v0 && edits(Effect::Delete { start, end }, d0, h0, d1, h1, res),
        Plan::Assign(name, value) => d1.same_as(&d0) && h1 == h0 && v1 == v0.insert(name@, value@)
            && res is Ok && res->Ok_0 is Done,
        Plan::Jump(n) => untouched(d0, h0, v0, d1, h1, v1) && res == Ok::<Outcome, EditError>(
            Outcome::Jump(n),
        ),
        Plan::Skip => untouched(d0, h0, v0, d1, h1, v1) && res is Ok && res->Ok_0 is Done,
        Plan::Quit => untouched(d0, h0, v0, d1, h1, v1) && res is Ok && res->Ok_0 is Quit,
        Plan::Save => untouched(d0, h0, v0, d1, h1, v1) && res is Ok && res->Ok_0 is Save,
        Plan::Open(t) => untouched(d0, h0, v0, d1, h1, v1) && res == Ok::<Outcome, EditError>(
            Outcome::Open(t),
        ),
        Plan::Search(t) => untouched(d0, h0, v0, d1, h1, v1) && res == Ok::<Outcome, EditError>(
            Outcome::Search(t),
        ),
        Plan::Run(t) => untouched(d0, h0, v0, d1, h1, v1) && res == Ok::<Outcome, EditError>(
            Outcome::Run(t),
        ),
    }
}

fn edit(effect: Effect, doc: &mut Document, history: &mut UndoEngine) -> (res: Result<
    Outcome,
    EditError,
>)
    requires
        old(doc).wf(),
    ensures
        final(doc).wf(),
        edits(effect, *old(doc), *old(history), *final(doc), *final(history), res),
{
    let r = doc.apply(effect);
    let ghost shown = r;
    let res = match r {
        Ok(ev) => {
            history.record(ev);
            Ok(Outcome::Done)
        },
        Err(e) => Err(e),
    };
    assert(old(doc).applied(effect, *doc, shown));
    res
}

fn step(op: Op, doc: &mut Document, history: &mut UndoEngine) -> (res: Result<Outcome, EditError>)
    requires
        old(doc).wf(),
    ensures
        final(doc).wf(),
        match op {
            Op::Undo => old(history).undoes(*old(doc), *final(history), *final(doc), went_through(res))
                && (res is Ok ==> res->Ok_0 is Done),
            Op::Redo => old(history).redoes(*old(doc), *final(history), *final(doc), went_through(res))
                && (res is Ok ==> res->Ok_0 is Done),
            _ => *final(history) == *old(history) && res is Ok && res->Ok_0 is Done && steps(
                op,
                *old(doc),
                *final(doc),
            ),
        },
{
    match op {
        Op::Undo => match history.undo(doc) {
            Ok(()) => Ok(Outcome::Done),
            Err(e) => Err(e),
        },
        Op::Redo => match history.redo(doc) {
            Ok(()) => Ok(Outcome::Done),
            Err(e) => Err(e),
        },
        Op::Left => {
            doc.move_left();
            Ok(Outcome::Done)
        },
        Op::Right => {
            doc.move_right();
            Ok(Outcome::Done)
        },
        Op::Up => {
            doc.move_up();
            Ok(Outcome::Done)
        },
        Op::Down => {
            doc.move_down();
            Ok(Outcome::Done)
        },
        Op::Home => {
            doc.move_line_start();
            Ok(Outcome::Done)
        },
        Op::End => {
            doc.move_line_end();
            Ok(Outcome::Done)
        },
        Op::WordLeft => {
            doc.move_word_left();
            Ok(Outcome::Done)
        },
        Op::WordRight => {
            doc.move_word_right();
            Ok(Outcome::Done)
        },
        _ => Ok(Outcome::Done),
    }
}

/// Carries out a plan: moves the cursor, edits the text and records the
/// edit, undoes or redoes, sets a variable, or hands back what only the
/// caller can do.
pub fn perform(plan: Plan, doc: &mut Document, history: &mut UndoEngine, vars: &mut VarTable) -> (res:
    Result<Outcome, EditError>)
    requires
        old(doc).wf(),
        old(vars).wf(),
    ensures
        final(doc).wf(),
        final(vars).wf(),
        spec_performs(
            plan,
            *old(doc),
            *old(history),
            old(vars)@,
            *final(doc),
            *final(history),
            final(vars)@,
            res,
        ),
{
    match plan {
        Plan::Step(op) => step(op, doc, history),
        Plan::MoveTo(p) => {
            doc.move_to(p);
            Ok(Outcome::Done)
        },
        Plan::Insert(text) => {
            let effect = match doc.selection() {
                Some((start, end)) => Effect::Replace { start, end, text },
                None => {
                    let typed = text.len() == 1;
                    Effect::Insert { at: doc.cursor, text, typed }
                },
            };
            edit(effect, doc, history)
        },
        Plan::Delete(start, end) => edit(Effect::Delete { start, end }, doc, history),
        Plan::Assign(name, value) => {
            vars.set(name, value);
            Ok(Outcome::Done)
        },
        Plan::Jump(n) => Ok(Outcome::Jump(n)),
        Plan::Skip => Ok(Outcome::Done),
        Plan::Quit => Ok(Outcome::Quit),
        Plan::Save => Ok(Outcome::Save),
        Plan::Open(t) => Ok(Outcome::Open(t)),
        Plan::Search(t) => Ok(Outcome::Search(t)),
        Plan::Run(t) => Ok(Outcome::Run(t)),
    }
}

/// What running an operation with these arguments does: the error of the
/// plan and nothing else where there is no plan, else what the plan does.
pub open spec fn spec_executes(
    op: Op,
    args: Seq<ArgV>,
    d0: Document,
    h0: UndoEngine,
    v0: Map<Seq<char>, Val>,
    d1: Document,
    h1: UndoEngine,
    v1: Map<Seq<char>, Val>,
    res: Result<Outcome, EditError>,
) -> bool {
    match spec_plan(op, args, v0) {
        Err(e) => res is Err && res->Err_0 == e && untouched(d0, h0, v0, d1, h1, v1),
        Ok(pv) => exists|p: Plan| #[trigger] p@ == pv && spec_performs(p, d0, h0, v0, d1, h1, v1, res),
    }
}

/// Runs one command: its arguments get their values now, not when the line
/// was parsed.
pub fn execute(cmd: &Command, doc: &mut Document, history: &mut UndoEngine, vars: &mut VarTable) -> (res:
    Result<Outcome, EditError>)
    requires
        old(doc).wf(),
        old(vars).wf(),
    ensures
        final(doc).wf(),
        final(vars).wf(),
        spec_executes(
            cmd.op,
            cmd.args_view(),
            *old(doc),
            *old(history),
            old(vars)@,
            *final(doc),
            *final(history),
            final(vars)@,
            res,
        ),
{
    match plan(cmd, vars) {
        Err(e) => Err(e),
        Ok(p) => {
            let ghost shown = p;
            let res = perform(p, doc, history, vars);
            assert(shown@ == spec_plan(cmd.op, cmd.args_view(), old(vars)@)->Ok_0);
            res
        },
    }
}

/// What running a line does: the error of a line that does not parse and
/// nothing else, nothing at all for a blank line or a comment, else what
/// its command does.
pub open spec fn spec_runs(
    line: Seq<char>,
    d0: Document,
    h0: UndoEngine,
    v0: Map<Seq<char>, Val>,
    d1: Document,
    h1: UndoEngine,
    v1: Map<Seq<char>, Val>,
    res: Result<Outcome, EditError>,
) -> bool {
    match spec_parse(line) {
        Err(e) => res is Err && res->Err_0 == e && untouched(d0, h0, v0, d1, h1, v1),
        Ok(None) => res is Ok && res->Ok_0 is Done && untouched(d0, h0, v0, d1, h1, v1),
        Ok(Some(c)) => spec_executes(c.0, c.1, d0, h0, v0, d1, h1, v1, res),
    }
}

/// Runs one line of a script. A blank line or a comment does nothing.
pub fn run_line(line: &Vec<char>, doc: &mut Document, history: &mut UndoEngine, vars: &mut VarTable) -> (res:
    Result<Outcome, EditError>)
    requires
        old(doc).wf(),
        old(vars).wf(),
    ensures
        final(doc).wf(),
        final(vars).wf(),
        spec_runs(
            line@,
            *old(doc),
            *old(history),
            old(vars)@,
            *final(doc),
            *final(history),
            final(vars)@,
            res,
        ),
{
    match parse_line(line) {
        Err(e) => Err(e),
        Ok(None) => Ok(Outcome::Done),
        Ok(Some(cmd)) => execute(&cmd, doc, history, vars),
    }
}

/// The scripts that are running, one inside the other: for each the index
/// of its next line, the innermost last.
pub struct Machine {
    pub frames: Vec<usize>,
    /// The most scripts that may run inside one another.
    pub limit: usize,
}

impl Machine {
    /// A machine that runs nothing yet.
    pub fn new(limit: usize) -> (res: Machine)
        ensures
            res.frames@.len() == 0,
            res.limit == limit,
    {
        Machine { frames: Vec::new(), limit }
    }

    /// The number of scripts that are running.
    pub fn depth(&self) -> (n: usize)
        ensures
            n == self.frames@.len(),
    {
        self.frames.len()
    }

    /// The index of the next line of the innermost script, if one is running.
    pub fn current(&self) -> (res: Option<usize>)
        ensures
            res == (if self.frames@.len() == 0 {
                None
            } else {
                Some(self.frames@.last())
            }),
    {
        let n = self.frames.len();
        if n == 0 {
            None
        } else {
            Some(self.frames[n - 1])
        }
    }

    /// Starts a script at its first line, inside those that are running.
    /// Fails where that would be one more than the limit allows.
    pub fn enter(&mut self) -> (res: Result<(), EditError>)
        ensures
            final(self).limit == old(self).limit,
            res is Ok <==> old(self).frames@.len() < old(self).limit,
            res is Ok ==> final(self).frames@ == old(self).frames@.push(0),
            res is Err ==> res->Err_0 == EditError::RecursionLimit && final(self).frames@
                == old(self).frames@,
    {
        if self.frames.len() < self.limit {
            self.frames.push(0);
            Ok(())
        } else {
            Err(EditError::RecursionLimit)
        }
    }

    /// The frames after a line of the innermost script ran: that script goes
    /// on at `jump`, or at its next line, and ends where that lies behind
    /// its `len` lines.
    pub open spec fn advanced(frames: Seq<usize>, jump: Option<usize>, len: usize) -> Seq<usize> {
        if frames.len() == 0 {
            frames
        } else {
            let next = match jump {
                Some(target) => target as int,
                None => frames.last() + 1,
            };
            if next < len {
                frames.update(frames.len() - 1, next as usize)
            } else {
                frames.drop_last()
            }
        }
    }

    /// Moves the innermost script on after one of its lines ran.
    pub fn advance(&mut self, jump: Option<usize>, len: usize)
        ensures
            final(self).limit == old(self).limit,
            final(self).frames@ == Machine::advanced(old(self).frames@, jump, len),
    {
        let n = self.frames.len();
        if n == 0 {
            return ;
        }
        let ip = self.frames[n - 1];
        let next = match jump {
            Some(target) => Some(target),
            None => if ip < usize::MAX {
                Some(ip + 1)
            } else {
                None
            },
        };
        match next {
            Some(at) => {
                if at < len {
                    self.frames.set(n - 1, at);
                } else {
                    self.frames.pop();
                }
            },
            None => {
                self.frames.pop();
            },
        }
    }
}

/// Where a script goes on after one of its lines gave `res`: at the target
/// of a jump, behind its last line after an error, else at the next line.
pub open spec fn jump_after(res: Result<Outcome, EditError>, len: usize) -> Option<usize> {
    match res {
        Ok(Outcome::Jump(n)) => Some(n),
        Err(_) => Some(len),
        _ => None,
    }
}

/// Runs the next line of the innermost script and moves that script on.
/// Gives nothing where no script is running, or where the innermost one has
/// no line left, which ends it. An error ends the innermost script. What
/// only the caller can do (quit, save, open, search, run another script)
/// comes back as the line's outcome, with the script already moved on.
pub fn step_script(
    lines: &Vec<Vec<char>>,
    machine: &mut Machine,
    doc: &mut Document,
    history: &mut UndoEngine,
    vars: &mut VarTable,
) -> (res: Option<Result<Outcome, EditError>>)
    requires
        old(doc).wf(),
        old(vars).wf(),
    ensures
        final(doc).wf(),
        final(vars).wf(),
        final(machine).limit == old(machine).limit,
        res is Some <==> old(machine).frames@.len() > 0 && old(machine).frames@.last() < lines@.len(),
        res is None ==> untouched(
            *old(doc),
            *old(history),
            old(vars)@,
            *final(doc),
            *final(history),
            final(vars)@,
        ) && final(machine).frames@ == (if old(machine).frames@.len() == 0 {
            old(machine).frames@
        } else {
            old(machine).frames@.drop_last()
        }),
        res is Some ==> spec_runs(
            lines@[old(machine).frames@.last() as int]@,
            *old(doc),
            *old(history),
            old(vars)@,
            *final(doc),
            *final(history),
            final(vars)@,
            res->Some_0,
        ) && final(machine).frames@ == Machine::advanced(
            old(machine).frames@,
            jump_after(res->Some_0, lines.len()),
            lines.len(),
        ),
{
    let len = lines.len();
    match machine.current() {
        None => None,
        Some(ip) => {
            if ip >= len {
                machine.advance(Some(len), len);
                None
            } else {
                let res = run_line(&lines[ip], doc, history, vars);
                let jump = match &res {
                    Ok(Outcome::Jump(n)) => Some(*n),
                    Err(_) => Some(len),
                    _ => None,
                };
                machine.advance(jump, len);
                Some(res)
            }
        },
    }
}

} // verus!
