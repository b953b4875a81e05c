//! The command language: one command per line, an operation name and its
//! arguments, separated by spaces, tabs or commas.

use vstd::prelude::*;
use vstd::string::StrSliceExecFns;
use crate::row_store::EditError;

verus! {

/// The operations of the language.
#[derive(Clone, Copy, Debug, PartialEq, Eq, Structural)]
pub enum Op {
    Left,
    Right,
    Up,
    Down,
    Home,
    End,
    WordLeft,
    WordRight,
    Move,
    Insert,
    Delete,
    Undo,
    Redo,
    Assign,
    Save,
    Open,
    Search,
    Quit,
    If,
    Jump,
    Run,
}

/// A value of the language.
#[derive(Debug)]
pub enum Value {
    Str(Vec<char>),
    Num(i64),
    Bool(bool),
}

/// A value, as contracts speak of it.
pub enum Val {
    Str(Seq<char>),
    Num(i64),
    Bool(bool),
}

impl View for Value {
    type V = Val;

    open spec fn view(&self) -> Val {
        match self {
            Value::Str(s) => Val::Str(s@),
            Value::Num(n) => Val::Num(*n),
            Value::Bool(b) => Val::Bool(*b),
        }
    }
}

/// An argument as written: a literal, or the name of a variable whose value
/// is looked up when the command runs.
#[derive(Debug)]
pub enum Arg {
    Lit(Value),
    Var(Vec<char>),
}

/// An argument, as contracts speak of it.
pub enum ArgV {
    Lit(Val),
    Var(Seq<char>),
}

impl View for Arg {
    type V = ArgV;

    open spec fn view(&self) -> ArgV {
        match self {
            Arg::Lit(v) => ArgV::Lit(v@),
            Arg::Var(n) => ArgV::Var(n@),
        }
    }
}

/// One parsed line.
#[derive(Debug)]
pub struct Command {
    pub op: Op,
    pub args: Vec<Arg>,
}

impl Command {
    /// The arguments, as contracts speak of them.
    pub open spec fn args_view(&self) -> Seq<ArgV> {
        Seq::new(self.args@.len(), |i: int| self.args@[i]@)
    }
}

/// One word of a line, and whether it stood in quotes.
#[derive(Debug)]
pub struct Token {
    pub text: Vec<char>,
    pub quoted: bool,
}

/// The words of `v`, as contracts speak of them.
pub open spec fn tokens_view(v: Seq<Token>) -> Seq<(Seq<char>, bool)> {
    Seq::new(v.len(), |i: int| (v[i].text@, v[i].quoted))
}

/// The state of the scanner between two characters of a line.
pub struct Scan {
    /// The words that are complete.
    pub done: Seq<(Seq<char>, bool)>,
    /// The characters of the word that is being read.
    pub cur: Seq<char>,
    /// Whether a word is being read.
    pub open: bool,
    /// Whether that word stands in quotes.
    pub quoted: bool,
    /// Whether a quote stood inside a bare word.
    pub bad: bool,
}

/// Space, tab and comma separate words.
pub open spec fn is_delimiter(c: char) -> bool {
    c == ' ' || c == '\t' || c == ','
}

/// The scanner's state after one more character.
pub open spec fn scan_step(s: Scan, c: char) -> Scan {
    if s.quoted {
        if c == '"' {
            Scan { done: s.done.push((s.cur, true)), cur: Seq::empty(), open: false, quoted: false, bad: s.bad }
        } else {
            Scan { cur: s.cur.push(c), ..s }
        }
    } else if is_delimiter(c) {
        if s.open {
            Scan { done: s.done.push((s.cur, false)), cur: Seq::empty(), open: false, ..s }
        } else {
            s
        }
    } else if c == '"' {
        if s.open {
            Scan { bad: true, ..s }
        } else {
            Scan { open: true, quoted: true, ..s }
        }
    } else {
        Scan { cur: s.cur.push(c), open: true, ..s }
    }
}

/// The scanner's state after the whole of `line`.
pub open spec fn scan(line: Seq<char>) -> Scan
    decreases line.len(),
{
    if line.len() == 0 {
        Scan { done: Seq::empty(), cur: Seq::empty(), open: false, quoted: false, bad: false }
    } else {
        scan_step(scan(line.drop_last()), line.last())
    }
}

/// The words of a line, or nothing where a quote is left open or stands
/// inside a bare word.
pub open spec fn spec_tokens(line: Seq<char>) -> Option<Seq<(Seq<char>, bool)>> {
    let s = scan(line);
    if s.bad || s.quoted {
        None
    } else if s.open {
        Some(s.done.push((s.cur, false)))
    } else {
        Some(s.done)
    }
}

/// Splits a line into its words. A quoted word may hold delimiters.
pub fn tokenize(line: &Vec<char>) -> (res: Result<Vec<Token>, EditError>)
    ensures
        res is Ok <==> spec_tokens(line@) is Some,
        res is Ok ==> tokens_view(res->Ok_0@) == spec_tokens(line@)->Some_0,
        res is Err ==> res->Err_0 == EditError::ArgumentError,
{
    let mut done: Vec<Token> = Vec::new();
    let mut cur: Vec<char> = Vec::new();
    let mut open = false;
    let mut quoted = false;
    let mut bad = false;
    let mut i: usize = 0;
    assert(line@.take(0) =~= Seq::<char>::empty());
    assert(tokens_view(done@) =~= Seq::empty());
    while i < line.len()
        invariant
            i <= line.len(),
            scan(line@.take(i as int)) == (Scan {
                done: tokens_view(done@),
                cur: cur@,
                open,
                quoted,
                bad,
            }),
        decreases line.len() - i,
    {
        let c = line[i];
        let ghost before = tokens_view(done@);
        let ghost word = cur@;
        assert(line@.take(i + 1).drop_last() =~= line@.take(i as int));
        if quoted {
            if c == '"' {
                done.push(Token { text: cur, quoted: true });
                cur = Vec::new();
                open = false;
                quoted = false;
                assert(tokens_view(done@) =~= before.push((word, true)));
            } else {
                cur.push(c);
            }
        } else if c == ' ' || c == '\t' || c == ',' {
            if open {
                done.push(Token { text: cur, quoted: false });
                cur = Vec::new();
                open = false;
                assert(tokens_view(done@) =~= before.push((word, false)));
            }
        } else if c == '"' {
            if open {
                bad = true;
            } else {
                open = true;
                quoted = true;
            }
        } else {
            cur.push(c);
            open = true;
        }
        i += 1;
    }
    assert(line@.take(line@.len() as int) =~= line@);
    if bad || quoted {
        return Err(EditError::ArgumentError);
    }
    if open {
        let ghost before = tokens_view(done@);
        let ghost word = cur@;
        done.push(Token { text: cur, quoted: false });
        assert(tokens_view(done@) =~= before.push((word, false)));
    }
    Ok(done)
}

/// Whether the characters of `a` are those of `word`.
pub fn is_word(a: &Vec<char>, word: &str) -> (res: bool)
    ensures
        res == (a@ == word@),
{
    let n = word.unicode_len();
    if a.len() != n {
        return false;
    }
    let mut i: usize = 0;
    while i < n
        invariant
            i <= n,
            n == a@.len(),
            n == word@.len(),
            forall|j: int| 0 <= j < i ==> a@[j] == word@[j],
        decreases n - i,
    {
        if a[i] != word.get_char(i) {
            return false;
        }
        i += 1;
    }
    assert(a@ =~= word@);
    true
}

/// Whether two texts hold the same characters.
pub fn same_chars(a: &Vec<char>, b: &Vec<char>) -> (res: bool)
    ensures
        res == (a@ == b@),
{
    if a.len() != b.len() {
        return false;
    }
    let mut i: usize = 0;
    while i < a.len()
        invariant
            i <= a.len(),
            a@.len() == b@.len(),
            forall|j: int| 0 <= j < i ==> a@[j] == b@[j],
        decreases a.len() - i,
    {
        if a[i] != b[i] {
            return false;
        }
        i += 1;
    }
    assert(a@ =~= b@);
    true
}

/// The operation that a name stands for.
pub open spec fn spec_op(name: Seq<char>) -> Option<Op> {
    if name == "left"@ {
        Some(Op::Left)
    } else if name == "right"@ {
        Some(Op::Right)
    } else if name == "up"@ {
        Some(Op::Up)
    } else if name == "down"@ {
        Some(Op::Down)
    } else if name == "home"@ {
        Some(Op::Home)
    } else if name == "end"@ {
        Some(Op::End)
    } else if name == "word_left"@ {
        Some(Op::WordLeft)
    } else if name == "word_right"@ {
        Some(Op::WordRight)
    } else if name == "move"@ {
        Some(Op::Move)
    } else if name == "insert"@ {
        Some(Op::Insert)
    } else if name == "delete"@ {
        Some(Op::Delete)
    } else if name == "undo"@ {
        Some(Op::Undo)
    } else if name == "redo"@ {
        Some(Op::Redo)
    } else if name == "set"@ {
        Some(Op::Assign)
    } else if name == "save"@ {
        Some(Op::Save)
    } else if name == "open"@ {
        Some(Op::Open)
    } else if name == "search"@ {
        Some(Op::Search)
    } else if name == "quit"@ {
        Some(Op::Quit)
    } else if name == "if"@ {
        Some(Op::If)
    } else if name == "goto"@ {
        Some(Op::Jump)
    } else if name == "run"@ {
        Some(Op::Run)
    } else {
        None
    }
}

/// Looks an operation up by its name.
pub fn op_of_name(name: &Vec<char>) -> (res: Option<Op>)
    ensures
        res == spec_op(name@),
{
    if is_word(name, "left") {
        Some(Op::Left)
    } else if is_word(name, "right") {
        Some(Op::Right)
    } else if is_word(name, "up") {
        Some(Op::Up)
    } else if is_word(name, "down") {
        Some(Op::Down)
    } else if is_word(name, "home") {
        Some(Op::Home)
    } else if is_word(name, "end") {
        Some(Op::End)
    } else if is_word(name, "word_left") {
        Some(Op::WordLeft)
    } else if is_word(name, "word_right") {
        Some(Op::WordRight)
    } else if is_word(name, "move") {
        Some(Op::Move)
    } else if is_word(name, "insert") {
        Some(Op::Insert)
    } else if is_word(name, "delete") {
        Some(Op::Delete)
    } else if is_word(name, "undo") {
        Some(Op::Undo)
    } else if is_word(name, "redo") {
        Some(Op::Redo)
    } else if is_word(name, "set") {
        Some(Op::Assign)
    } else if is_word(name, "save") {
        Some(Op::Save)
    } else if is_word(name, "open") {
        Some(Op::Open)
    } else if is_word(name, "search") {
        Some(Op::Search)
    } else if is_word(name, "quit") {
        Some(Op::Quit)
    } else if is_word(name, "if") {
        Some(Op::If)
    } else if is_word(name, "goto") {
        Some(Op::Jump)
    } else if is_word(name, "run") {
        Some(Op::Run)
    } else {
        None
    }
}

/// The number of arguments that an operation takes.
pub open spec fn spec_arity(op: Op) -> nat {
    match op {
        Op::Move | Op::Assign | Op::If => 2,
        Op::Insert | Op::Open | Op::Search | Op::Jump | Op::Run => 1,
        Op::Delete => 4,
        _ => 0,
    }
}

/// The number of arguments that an operation takes.
pub fn arity(op: Op) -> (n: usize)
    ensures
        n == spec_arity(op),
{
    match op {
        Op::Move | Op::Assign | Op::If => 2,
        Op::Insert | Op::Open | Op::Search | Op::Jump | Op::Run => 1,
        Op::Delete => 4,
        _ => 0,
    }
}

/// Whether `c` is one of the ten decimal digits.
pub open spec fn is_digit(c: char) -> bool {
    48 <= c as u32 <= 57
}

/// Whether every character of `s` is a decimal digit.
pub open spec fn all_digits(s: Seq<char>) -> bool {
    forall|i: int| 0 <= i < s.len() ==> is_digit(#[trigger] s[i])
}

/// The number that the decimal digits of `s` write.
pub open spec fn digits_value(s: Seq<char>) -> int
    decreases s.len(),
{
    if s.len() == 0 {
        0
    } else {
        digits_value(s.drop_last()) * 10 + (s.last() as u32 - 48)
    }
}

/// The number that `text` writes: decimal digits, with `-` in front for a
/// negative one; nothing where the text is no such number or its size is
/// beyond the largest `i64`.
pub open spec fn spec_number(text: Seq<char>) -> Option<i64> {
    let neg = text.len() > 0 && text[0] == '-';
    let digits = if neg {
        text.skip(1)
    } else {
        text
    };
    if digits.len() == 0 || !all_digits(digits) || digits_value(digits) > i64::MAX {
        None
    } else if neg {
        Some((0 - digits_value(digits)) as i64)
    } else {
        Some(digits_value(digits) as i64)
    }
}

/// A number of digits is never less than the number that its first digits
/// write.
pub proof fn lemma_digits_grow(s: Seq<char>, k: int)
    requires
        all_digits(s),
        0 <= k <= s.len(),
    ensures
        0 <= digits_value(s.take(k)) <= digits_value(s),
    decreases s.len() - k,
{
    lemma_digits_nonnegative(s.take(k));
    if k == s.len() {
        assert(s.take(k) =~= s);
    } else {
        lemma_digits_grow(s, k + 1);
        assert(s.take(k + 1).drop_last() =~= s.take(k));
        assert(is_digit(s[k]));
    }
}

/// Digits write no negative number.
pub proof fn lemma_digits_nonnegative(s: Seq<char>)
    requires
        all_digits(s),
    ensures
        0 <= digits_value(s),
    decreases s.len(),
{
    if s.len() > 0 {
        lemma_digits_nonnegative(s.drop_last());
        assert(is_digit(s.last()));
    }
}

/// Reads a number.
pub fn parse_number(text: &Vec<char>) -> (res: Option<i64>)
    ensures
        res == spec_number(text@),
{
    let n = text.len();
    let neg = n > 0 && text[0] == '-';
    let start: usize = if neg {
        1
    } else {
        0
    };
    if start == n {
        return None;
    }
    let ghost digits = if neg {
        text@.skip(1)
    } else {
        text@
    };
    let mut acc: u64 = 0;
    let mut i: usize = start;
    assert(digits.take(0) =~= Seq::<char>::empty());
    while i < n
        invariant
            start <= i <= n,
            n == text@.len(),
            neg == (text@.len() > 0 && text@[0] == '-'),
            digits == (if neg {
                text@.skip(1)
            } else {
                text@
            }),
            start == (if neg {
                1usize
            } else {
                0usize
            }),
            digits.len() == n - start,
            forall|j: int| 0 <= j < digits.len() ==> digits[j] == text@[j + start],
            all_digits(digits.take(i - start)),
            acc == digits_value(digits.take(i - start)),
            acc <= i64::MAX,
        decreases n - i,
    {
        let d = text[i] as u32;
        if d < 48 || d > 57 {
            assert(!is_digit(digits[i - start]));
            return None;
        }
        let v = (d - 48) as u64;
        proof {
            assert(digits.take(i - start + 1).drop_last() =~= digits.take(i - start));
            assert(digits.take(i - start + 1).last() == text@[i as int]);
        }
        if acc > (0x7fff_ffff_ffff_ffffu64 - v) / 10 {
            proof {
                if all_digits(digits) {
                    lemma_digits_grow(digits, i - start + 1);
                }
            }
            return None;
        }
        acc = acc * 10 + v;
        i += 1;
    }
    assert(digits.take(digits.len() as int) =~= digits);
    if neg {
        Some(0 - (acc as i64))
    } else {
        Some(acc as i64)
    }
}

/// The argument that a word stands for: a quoted word is a string, `$` and a
/// name a variable, `true` and `false` the booleans, anything else a number
/// or nothing.
pub open spec fn spec_arg(text: Seq<char>, quoted: bool) -> Option<ArgV> {
    if quoted {
        Some(ArgV::Lit(Val::Str(text)))
    } else if text.len() > 0 && text[0] == '$' {
        if text.len() > 1 {
            Some(ArgV::Var(text.skip(1)))
        } else {
            None
        }
    } else if text == "true"@ {
        Some(ArgV::Lit(Val::Bool(true)))
    } else if text == "false"@ {
        Some(ArgV::Lit(Val::Bool(false)))
    } else {
        match spec_number(text) {
            Some(n) => Some(ArgV::Lit(Val::Num(n))),
            None => None,
        }
    }
}

/// A copy of `src` from index `from` on.
pub fn copy_from(src: &Vec<char>, from: usize) -> (res: Vec<char>)
    requires
        from <= src@.len(),
    ensures
        res@ == src@.skip(from as int),
{
    let mut out: Vec<char> = Vec::new();
    let mut i: usize = from;
    while i < src.len()
        invariant
            from <= i <= src.len(),
            out@ == src@.subrange(from as int, i as int),
        decreases src.len() - i,
    {
        out.push(src[i]);
        assert(src@.subrange(from as int, i + 1) =~= src@.subrange(from as int, i as int).push(
            src@[i as int],
        ));
        i += 1;
    }
    assert(src@.subrange(from as int, src@.len() as int) =~= src@.skip(from as int));
    out
}

/// Reads one word as an argument.
pub fn parse_arg(tok: &Token) -> (res: Option<Arg>)
    ensures
        res is Some <==> spec_arg(tok.text@, tok.quoted) is Some,
        res is Some ==> res->Some_0@ == spec_arg(tok.text@, tok.quoted)->Some_0,
{
    if tok.quoted {
        let text = copy_from(&tok.text, 0);
        assert(tok.text@.skip(0) =~= tok.text@);
        Some(Arg::Lit(Value::Str(text)))
    } else if tok.text.len() > 0 && tok.text[0] == '$' {
        if tok.text.len() > 1 {
            Some(Arg::Var(copy_from(&tok.text, 1)))
        } else {
            None
        }
    } else if is_word(&tok.text, "true") {
        Some(Arg::Lit(Value::Bool(true)))
    } else if is_word(&tok.text, "false") {
        Some(Arg::Lit(Value::Bool(false)))
    } else {
        match parse_number(&tok.text) {
            Some(n) => Some(Arg::Lit(Value::Num(n))),
            None => None,
        }
    }
}

/// Whether the first character of `line` that is no space or tab is `#`.
pub open spec fn is_comment(line: Seq<char>) -> bool
    decreases line.len(),
{
    line.len() > 0 && (line[0] == '#' || ((line[0] == ' ' || line[0] == '\t') && is_comment(
        line.skip(1),
    )))
}

/// Whether a line is a comment.
pub fn comment_line(line: &Vec<char>) -> (res: bool)
    ensures
        res == is_comment(line@),
{
    let mut i: usize = 0;
    assert(line@.skip(0) =~= line@);
    while i < line.len()
        invariant
            i <= line.len(),
            is_comment(line@) == is_comment(line@.skip(i as int)),
        decreases line.len() - i,
    {
        let c = line[i];
        if c == '#' {
            return true;
        }
        if c != ' ' && c != '\t' {
            return false;
        }
        assert(line@.skip(i as int).skip(1) =~= line@.skip(i + 1));
        i += 1;
    }
    assert(!is_comment(line@.skip(i as int)));
    false
}

/// Whether every word of `words` stands for an argument.
pub open spec fn all_args(words: Seq<(Seq<char>, bool)>) -> bool {
    forall|i: int| 0 <= i < words.len() ==> spec_arg(#[trigger] words[i].0, words[i].1) is Some
}

/// The arguments that the words stand for.
pub open spec fn args_of(words: Seq<(Seq<char>, bool)>) -> Seq<ArgV> {
    Seq::new(words.len(), |i: int| spec_arg(words[i].0, words[i].1)->Some_0)
}

/// What a line means: nothing for a blank line or a comment; else its
/// operation with its arguments; or the error of a line that names no
/// operation, or whose arguments are not what the operation takes.
pub open spec fn spec_parse(line: Seq<char>) -> Result<Option<(Op, Seq<ArgV>)>, EditError> {
    if is_comment(line) {
        Ok(None)
    } else {
        match spec_tokens(line) {
            None => Err(EditError::ArgumentError),
            Some(words) => if words.len() == 0 {
                Ok(None)
            } else if words[0].1 {
                Err(EditError::UnknownCommand)
            } else {
                match spec_op(words[0].0) {
                    None => Err(EditError::UnknownCommand),
                    Some(op) => {
                        let rest = words.skip(1);
                        if !all_args(rest) || rest.len() != spec_arity(op) || (op == Op::Assign
                            && !(args_of(rest)[0] is Var)) {
                            Err(EditError::ArgumentError)
                        } else {
                            Ok(Some((op, args_of(rest))))
                        }
                    },
                }
            },
        }
    }
}

/// Parses one line of a script.
pub fn parse_line(line: &Vec<char>) -> (res: Result<Option<Command>, EditError>)
    ensures
        match spec_parse(line@) {
            Ok(None) => res is Ok && res->Ok_0 is None,
            Ok(Some(c)) => res is Ok && res->Ok_0 is Some && res->Ok_0->Some_0.op == c.0
                && res->Ok_0->Some_0.args_view() == c.1,
            Err(e) => res is Err && res->Err_0 == e,
        },
{
    if comment_line(line) {
        return Ok(None);
    }
    let words = match tokenize(line) {
        Ok(w) => w,
        Err(e) => {
            return Err(e);
        },
    };
    if words.len() == 0 {
        return Ok(None);
    }
    if words[0].quoted {
        return Err(EditError::UnknownCommand);
    }
    let op = match op_of_name(&words[0].text) {
        Some(op) => op,
        None => {
            return Err(EditError::UnknownCommand);
        },
    };
    let ghost all = tokens_view(words@);
    let ghost rest = all.skip(1);
    let mut args: Vec<Arg> = Vec::new();
    let mut i: usize = 1;
    while i < words.len()
        invariant
            1 <= i <= words.len(),
            all == tokens_view(words@),
            !is_comment(line@),
            spec_tokens(line@) == Some(all),
            !all[0].1,
            spec_op(all[0].0) == Some(op),
            rest == all.skip(1),
            args@.len() == i - 1,
            forall|j: int| 0 <= j < i - 1 ==> spec_arg(#[trigger] rest[j].0, rest[j].1) is Some,
            forall|j: int|
                0 <= j < i - 1 ==> (#[trigger] args@[j])@ == spec_arg(rest[j].0, rest[j].1)->Some_0,
        decreases words.len() - i,
    {
        assert(rest[i - 1] == (words@[i as int].text@, words@[i as int].quoted));
        match parse_arg(&words[i]) {
            Some(a) => {
                args.push(a);
            },
            None => {
                assert(spec_arg(rest[i - 1].0, rest[i - 1].1) is None);
                return Err(EditError::ArgumentError);
            },
        }
        i += 1;
    }
    assert(all_args(rest));
    if args.len() != arity(op) {
        return Err(EditError::ArgumentError);
    }
    let cmd = Command { op, args };
    assert(cmd.args_view() =~= args_of(rest));
    if op == Op::Assign {
        match &cmd.args[0] {
            Arg::Var(_) => {},
            Arg::Lit(_) => {
                return Err(EditError::ArgumentError);
            },
        }
    }
    Ok(Some(cmd))
}

} // verus!
