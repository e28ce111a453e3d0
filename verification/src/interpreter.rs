//! The interpreter: tokenizes a source stream once, then walks the token
//! list with an explicit cursor, driving the tape through each instruction
//! and implementing bracket-style looping with a stack of loop-open indices.
//!
//! The semantics are given as a small-step machine over `RunState`:
//! `spec_step` dispatches exactly one token, and `run_steps` iterates it.
//! `run` promises that its outcome is what the machine reaches.  So that
//! every loop in the library provably terminates, a run is bounded by a step
//! budget large enough never to matter in practice; a run that would outlive
//! it stops with an error of its own.

use vstd::prelude::*;
use vstd::string::*;

use crate::lexer::{views_of, LexState, Lexer, Token, TokenType, TokenView};
use crate::tape::{spec_tape_error_text, Tape, TapeError, TapeView};
use crate::text::{
    append_dec_u64, bytes_text, dec_chars, spec_parse_signed, spec_parse_unsigned, text_of_bytes,
};

verus! {

/// Type alias for a simple result with an `InterpreterError`.
pub type InterpreterResult<T> = Result<T, InterpreterError>;

/// Defines an error that occurs during runtime.
#[derive(Debug)]
pub struct InterpreterError {
    pub description: String,
}

impl View for InterpreterError {
    type V = Seq<char>;

    open spec fn view(&self) -> Seq<char> {
        self.description@
    }
}

impl InterpreterError {
    /// Wraps a tape error, its rendered kind and description preserved.
    pub fn from(value: TapeError) -> (r: InterpreterError)
        ensures
            r@ == spec_tape_error_text(value@),
    {
        InterpreterError { description: value.describe() }
    }
}

/// The number of dispatch steps a single run may take.  At one step per
/// nanosecond this budget lasts for centuries; it exists so that the
/// dispatch loop has a provable bound.
pub const STEP_LIMIT: u64 = u64::MAX;

// ---------------------------------------------------------------------------
// Error messages
// ---------------------------------------------------------------------------

pub open spec fn msg_unknown_token(v: Seq<u8>, line: nat, col: nat) -> Seq<char> {
    "Found unknown token '"@ + text_of_bytes(v) + "'. - ln: "@ + dec_chars(line) + ", col: "@
        + dec_chars(col)
}

pub open spec fn msg_expected_num(v: Seq<u8>, line: nat, col: nat) -> Seq<char> {
    "Expected 'num'. Found '"@ + text_of_bytes(v) + "' - ln: "@ + dec_chars(line) + ", col: "@
        + dec_chars(col)
}

pub open spec fn msg_expected_num_nothing() -> Seq<char> {
    "Expected 'num'. Found nothing instead."@
}

pub open spec fn msg_expected_value_nothing() -> Seq<char> {
    "Expected a value. Found nothing."@
}

pub open spec fn msg_loop_underflow() -> Seq<char> {
    "Expected an index on the loop stack. Found nothing."@
}

pub open spec fn msg_unexpected() -> Seq<char> {
    "Unexpected error."@
}

pub open spec fn msg_bad_operand(v: Seq<u8>) -> Seq<char> {
    "Could not parse '"@ + text_of_bytes(v) + "' as a numeric operand."@
}

pub open spec fn msg_step_limit() -> Seq<char> {
    "The run exceeded the interpreter's step budget."@
}

fn unknown_token_msg(v: &Vec<u8>, line: u32, col: u32) -> (r: String)
    ensures
        r@ == msg_unknown_token(v@, line as nat, col as nat),
{
    let mut s = String::from_str("Found unknown token '");
    s.append(bytes_text(v).as_str());
    s.append("'. - ln: ");
    append_dec_u64(&mut s, line as u64);
    s.append(", col: ");
    append_dec_u64(&mut s, col as u64);
    s
}

fn expected_num_msg(v: &Vec<u8>, line: u32, col: u32) -> (r: String)
    ensures
        r@ == msg_expected_num(v@, line as nat, col as nat),
{
    let mut s = String::from_str("Expected 'num'. Found '");
    s.append(bytes_text(v).as_str());
    s.append("' - ln: ");
    append_dec_u64(&mut s, line as u64);
    s.append(", col: ");
    append_dec_u64(&mut s, col as u64);
    s
}

fn bad_operand_msg(v: &Vec<u8>) -> (r: String)
    ensures
        r@ == msg_bad_operand(v@),
{
    let mut s = String::from_str("Could not parse '");
    s.append(bytes_text(v).as_str());
    s.append("' as a numeric operand.");
    s
}

// ---------------------------------------------------------------------------
// Operands
// ---------------------------------------------------------------------------

/// The view of an optionally present token.
pub open spec fn view_opt(t: Option<&Token>) -> Option<TokenView> {
    match t {
        Some(t) => Some(t@),
        None => None,
    }
}

/// The token standing at an index, where there is one.
pub open spec fn operand_at(toks: Seq<TokenView>, j: nat) -> Option<TokenView> {
    if j < toks.len() {
        Some(toks[j as int])
    } else {
        None
    }
}

/// A mandatory numeric operand: the raw bytes of the following token, which
/// must exist and be a numeric literal.
pub open spec fn operand_check(tok: Option<TokenView>) -> Result<Seq<u8>, Seq<char>> {
    match tok {
        None => Err(msg_expected_num_nothing()),
        Some(t) => if t.kind == TokenType::Num {
            Ok(t.value)
        } else {
            Err(msg_expected_num(t.value, t.line, t.column))
        },
    }
}

/// A numeric operand read as an unsigned value of at most `max`.
pub open spec fn spec_expect_unsigned(tok: Option<TokenView>, max: nat) -> Result<nat, Seq<char>> {
    match operand_check(tok) {
        Err(m) => Err(m),
        Ok(v) => match spec_parse_unsigned(v, max) {
            Some(n) => Ok(n),
            None => Err(msg_bad_operand(v)),
        },
    }
}

/// A numeric operand read as a signed value within `min ..= max`.
pub open spec fn spec_expect_signed(tok: Option<TokenView>, min: int, max: int) -> Result<
    int,
    Seq<char>,
> {
    match operand_check(tok) {
        Err(m) => Err(m),
        Ok(v) => match spec_parse_signed(v, min, max) {
            Some(n) => Ok(n),
            None => Err(msg_bad_operand(v)),
        },
    }
}

/// Expects the given token to be a numeric literal and hands out its raw
/// bytes.
fn expect_operand<'a>(token: Option<&'a Token>) -> (r: Result<&'a Vec<u8>, InterpreterError>)
    ensures
        match r {
            Ok(v) => operand_check(view_opt(token)) == Ok::<Seq<u8>, Seq<char>>(v@),
            Err(e) => operand_check(view_opt(token)) matches Err(m) && e@ == m,
        },
{
    match token {
        None => Err(
            InterpreterError {
                description: String::from_str("Expected 'num'. Found nothing instead."),
            },
        ),
        Some(tok) => match tok._type {
            TokenType::Num => Ok(&tok.value),
            _ => Err(
                InterpreterError {
                    description: expected_num_msg(&tok.value, tok.line, tok.column),
                },
            ),
        },
    }
}

/// Expects the given token to be a numeric literal naming an unsigned value
/// of at most `max`.
fn expect_num_u64(token: Option<&Token>, max: u64) -> (r: Result<u64, InterpreterError>)
    ensures
        match r {
            Ok(v) => spec_expect_unsigned(view_opt(token), max as nat) == Ok::<nat, Seq<char>>(
                v as nat,
            ) && v <= max,
            Err(e) => spec_expect_unsigned(view_opt(token), max as nat) matches Err(m) && e@ == m,
        },
{
    let v = match expect_operand(token) {
        Ok(v) => v,
        Err(e) => {
            return Err(e);
        },
    };
    match crate::text::parse_unsigned(v.as_slice(), max) {
        Some(n) => Ok(n),
        None => Err(InterpreterError { description: bad_operand_msg(v) }),
    }
}

/// Expects the given token to be a numeric literal naming a signed value
/// within `min ..= max`.
fn expect_num_i64(token: Option<&Token>, min: i64, max: i64) -> (r: Result<i64, InterpreterError>)
    requires
        min <= 0 <= max,
    ensures
        match r {
            Ok(v) => spec_expect_signed(view_opt(token), min as int, max as int) == Ok::<
                int,
                Seq<char>,
            >(v as int) && min <= v <= max,
            Err(e) => spec_expect_signed(view_opt(token), min as int, max as int) matches Err(m)
                && e@ == m,
        },
{
    let v = match expect_operand(token) {
        Ok(v) => v,
        Err(e) => {
            return Err(e);
        },
    };
    match crate::text::parse_signed(v.as_slice(), min, max) {
        Some(n) => Ok(n),
        None => Err(InterpreterError { description: bad_operand_msg(v) }),
    }
}

// ---------------------------------------------------------------------------
// The machine
// ---------------------------------------------------------------------------

/// Model of a running interpreter: the tape, the cursor over the token
/// list, the recorded index of the instruction being dispatched, and the
/// loop stack.
pub ghost struct RunState {
    pub tape: TapeView,
    pub idx: nat,
    pub mark: nat,
    pub stack: Seq<nat>,
}

/// What one dispatch step did: carried on, ran off the end of the program,
/// or failed with a message.
pub ghost enum StepResult {
    Going(RunState),
    Done(RunState),
    Failed(RunState, Seq<char>),
}

/// A step that goes on at cursor `j` with tape outcome `o` applied, or
/// fails with the tape error's rendering.
pub open spec fn tape_step(m: RunState, o: crate::tape::TapeOutcome, j: nat) -> StepResult {
    match o.err {
        None => StepResult::Going(RunState { tape: o.tape, idx: j, ..m }),
        Some(e) => StepResult::Failed(
            RunState { tape: o.tape, ..m },
            spec_tape_error_text(e),
        ),
    }
}

/// A failure before any tape work, the tape untouched.
pub open spec fn plain_fail(m: RunState, msg: Seq<char>) -> StepResult {
    StepResult::Failed(m, msg)
}

/// One dispatch step of the interpreter over the token list.
#[verifier::opaque]
pub open spec fn spec_step(toks: Seq<TokenView>, s: RunState) -> StepResult {
    if s.idx >= toks.len() {
        StepResult::Done(s)
    } else {
        let t = toks[s.idx as int];
        let m = RunState { mark: s.idx, ..s };
        let next = operand_at(toks, s.idx + 1);
        match t.kind {
            TokenType::Pfw => match spec_expect_unsigned(next, usize::MAX as nat) {
                Err(msg) => plain_fail(m, msg),
                Ok(n) => tape_step(m, m.tape.pfw_r(n), s.idx + 2),
            },
            TokenType::Pbw => match spec_expect_unsigned(next, usize::MAX as nat) {
                Err(msg) => plain_fail(m, msg),
                Ok(n) => tape_step(m, m.tape.pbw_r(n), s.idx + 2),
            },
            TokenType::Inc => match spec_expect_unsigned(next, 255) {
                Err(msg) => plain_fail(m, msg),
                Ok(n) => tape_step(m, m.tape.inc_r(n as u8), s.idx + 2),
            },
            TokenType::Dec => match spec_expect_unsigned(next, 255) {
                Err(msg) => plain_fail(m, msg),
                Ok(n) => tape_step(m, m.tape.dec_r(n as u8), s.idx + 2),
            },
            TokenType::Lop => StepResult::Going(
                RunState { idx: s.idx + 1, stack: m.stack.push(s.idx), ..m },
            ),
            TokenType::Pol => {
                if m.stack.len() == 0 {
                    plain_fail(m, msg_loop_underflow())
                } else {
                    match m.tape.get_r() {
                        Err(e) => plain_fail(m, spec_tape_error_text(e)),
                        Ok(val) => if val == 0 {
                            StepResult::Going(
                                RunState { idx: s.idx + 1, stack: m.stack.drop_last(), ..m },
                            )
                        } else {
                            StepResult::Going(RunState { idx: m.stack.last() + 1, ..m })
                        },
                    }
                }
            },
            TokenType::Wrt => tape_step(m, m.tape.wrt_r(), s.idx + 1),
            TokenType::Wrti8 => tape_step(m, m.tape.wrt_num_r::<i8>(), s.idx + 1),
            TokenType::Wrti16 => tape_step(m, m.tape.wrt_num_r::<i16>(), s.idx + 1),
            TokenType::Wrti32 => tape_step(m, m.tape.wrt_num_r::<i32>(), s.idx + 1),
            TokenType::Wrti64 => tape_step(m, m.tape.wrt_num_r::<i64>(), s.idx + 1),
            TokenType::Wrtu8 => tape_step(m, m.tape.wrt_num_r::<u8>(), s.idx + 1),
            TokenType::Wrtu16 => tape_step(m, m.tape.wrt_num_r::<u16>(), s.idx + 1),
            TokenType::Wrtu32 => tape_step(m, m.tape.wrt_num_r::<u32>(), s.idx + 1),
            TokenType::Wrtu64 => tape_step(m, m.tape.wrt_num_r::<u64>(), s.idx + 1),
            TokenType::Wrtf32 => tape_step(m, m.tape.wrtf32_r(), s.idx + 1),
            TokenType::Wrtf64 => tape_step(m, m.tape.wrtf64_r(), s.idx + 1),
            TokenType::Rdi => tape_step(m, m.tape.rdi_r(), s.idx + 1),
            TokenType::Rda => tape_step(m, m.tape.rda_r(), s.idx + 1),
            TokenType::Wra => tape_step(m, m.tape.wra_r(), s.idx + 1),
            TokenType::Clr => tape_step(m, m.tape.clr_r(), s.idx + 1),
            TokenType::SetStr => match operand_at(toks, s.idx + 1) {
                None => plain_fail(m, msg_expected_value_nothing()),
                Some(t2) => tape_step(m, m.tape.set_r(t2.value), s.idx + 2),
            },
            TokenType::Seti8 => match spec_expect_signed(next, i8::MIN as int, i8::MAX as int) {
                Err(msg) => plain_fail(m, msg),
                Ok(v) => tape_step(m, m.tape.set_num_r::<i8>(v as i8), s.idx + 2),
            },
            TokenType::Seti16 => match spec_expect_signed(next, i16::MIN as int, i16::MAX as int) {
                Err(msg) => plain_fail(m, msg),
                Ok(v) => tape_step(m, m.tape.set_num_r::<i16>(v as i16), s.idx + 2),
            },
            TokenType::Seti32 => match spec_expect_signed(next, i32::MIN as int, i32::MAX as int) {
                Err(msg) => plain_fail(m, msg),
                Ok(v) => tape_step(m, m.tape.set_num_r::<i32>(v as i32), s.idx + 2),
            },
            TokenType::Seti64 => match spec_expect_signed(next, i64::MIN as int, i64::MAX as int) {
                Err(msg) => plain_fail(m, msg),
                Ok(v) => tape_step(m, m.tape.set_num_r::<i64>(v as i64), s.idx + 2),
            },
            TokenType::Setu8 => match spec_expect_unsigned(next, u8::MAX as nat) {
                Err(msg) => plain_fail(m, msg),
                Ok(n) => tape_step(m, m.tape.set_num_r::<u8>(n as u8), s.idx + 2),
            },
            TokenType::Setu16 => match spec_expect_unsigned(next, u16::MAX as nat) {
                Err(msg) => plain_fail(m, msg),
                Ok(n) => tape_step(m, m.tape.set_num_r::<u16>(n as u16), s.idx + 2),
            },
            TokenType::Setu32 => match spec_expect_unsigned(next, u32::MAX as nat) {
                Err(msg) => plain_fail(m, msg),
                Ok(n) => tape_step(m, m.tape.set_num_r::<u32>(n as u32), s.idx + 2),
            },
            TokenType::Setu64 => match spec_expect_unsigned(next, u64::MAX as nat) {
                Err(msg) => plain_fail(m, msg),
                Ok(n) => tape_step(m, m.tape.set_num_r::<u64>(n as u64), s.idx + 2),
            },
            TokenType::Setf32 => match operand_check(next) {
                Err(msg) => plain_fail(m, msg),
                Ok(v) => match crate::float::float32_of_text(v) {
                    Some(bytes) => tape_step(m, m.tape.set_r(bytes), s.idx + 2),
                    None => plain_fail(m, msg_bad_operand(v)),
                },
            },
            TokenType::Setf64 => match operand_check(next) {
                Err(msg) => plain_fail(m, msg),
                Ok(v) => match crate::float::float64_of_text(v) {
                    Some(bytes) => tape_step(m, m.tape.set_r(bytes), s.idx + 2),
                    None => plain_fail(m, msg_bad_operand(v)),
                },
            },
            TokenType::Num => plain_fail(m, msg_unexpected()),
            TokenType::Unknown => plain_fail(
                m,
                msg_unknown_token(t.value, t.line, t.column),
            ),
        }
    }
}

/// The machine after at most `n` steps: it carries on, or sticks at the
/// first end or failure it reached.
pub open spec fn run_steps(toks: Seq<TokenView>, s: RunState, n: nat) -> StepResult
    decreases n,
{
    if n == 0 {
        StepResult::Going(s)
    } else {
        match spec_step(toks, s) {
            StepResult::Going(s2) => run_steps(toks, s2, (n - 1) as nat),
            halted => halted,
        }
    }
}

/// A machine that is still going after `n` steps takes its next step as
/// `spec_step` says.
proof fn lemma_run_steps_extend(toks: Seq<TokenView>, init: RunState, n: nat, cur: RunState)
    requires
        run_steps(toks, init, n) == StepResult::Going(cur),
    ensures
        run_steps(toks, init, n + 1) == spec_step(toks, cur),
    decreases n,
{
    if n == 0 {
        assert(init == cur);
        match spec_step(toks, cur) {
            StepResult::Going(s2) => {
                assert(run_steps(toks, init, 1) == run_steps(toks, s2, 0));
            },
            _ => {},
        }
    } else {
        match spec_step(toks, init) {
            StepResult::Going(m) => {
                lemma_run_steps_extend(toks, m, (n - 1) as nat, cur);
            },
            _ => {},
        }
    }
}

// ---------------------------------------------------------------------------
// The interpreter
// ---------------------------------------------------------------------------

/// Model of an interpreter at rest: its tape, the recorded instruction
/// index, and the loop stack.
pub ghost struct InterpView {
    pub tape: TapeView,
    pub mark: nat,
    pub stack: Seq<nat>,
}

impl InterpView {
    /// Every loop-stack entry fits the cursor's machine word; pushes during
    /// a run keep this, since every pushed index addresses a token.
    pub open spec fn wf(self) -> bool {
        forall|j: int| 0 <= j < self.stack.len() ==> self.stack[j] < usize::MAX
    }
}

/// The tokens a source stream carries, read from a fresh position.
pub open spec fn spec_program(src: Seq<u8>) -> Seq<TokenView> {
    crate::lexer::spec_tokenize(src, LexState { line: 1, column: 1, buf: Seq::empty() }).0
}

/// Whether an interpreter's fields agree with a machine state.
pub open spec fn agrees(iv: InterpView, s: RunState) -> bool {
    iv.tape == s.tape && iv.mark == s.mark && iv.stack == s.stack
}

/// The machine state a run starts from.
pub open spec fn init_state(iv: InterpView) -> RunState {
    RunState { tape: iv.tape, idx: 0, mark: iv.mark, stack: iv.stack }
}

/// The machine state standing at cursor `i` over an interpreter's fields.
pub open spec fn cur_state(iv: InterpView, i: nat) -> RunState {
    RunState { tape: iv.tape, idx: i, mark: iv.mark, stack: iv.stack }
}

/// Defines data for the interpreter.
pub struct Interpreter {
    /// The underlying tape.
    tape: Tape,
    /// The index of the current instruction.
    instruction_index: usize,
    /// Indices of the loop-open tokens whose loops are open, innermost
    /// last.
    loop_stack: Vec<usize>,
}

impl View for Interpreter {
    type V = InterpView;

    closed spec fn view(&self) -> InterpView {
        InterpView {
            tape: self.tape@,
            mark: self.instruction_index as nat,
            stack: self.loop_stack@.map_values(|x: usize| x as nat),
        }
    }
}

impl Interpreter {
    /// Constructor for creating a new interpreter.
    /// # Arguments
    /// * `data_tape_sz` - Size of the underlying tape.
    pub fn new(data_tape_sz: usize) -> (r: Self)
        ensures
            r@ == (InterpView {
                tape: TapeView {
                    data: Seq::new(data_tape_sz as nat, |i: int| 0u8),
                    ptr: 0,
                    input: Seq::empty(),
                    input_pos: 0,
                    output: Seq::empty(),
                },
                mark: 0,
                stack: Seq::empty(),
            }),
            r@.wf(),
    {
        let r = Self { tape: Tape::new(data_tape_sz), instruction_index: 0, loop_stack: Vec::new() };
        proof {
            assert(r@.stack =~= Seq::<nat>::empty());
        }
        r
    }

    /// Resets the interpreter: the tape's cells, the instruction index and
    /// the loop stack all return to zero, without reallocating the tape.
    pub fn reset(&mut self)
        ensures
            final(self)@ == (InterpView {
                tape: TapeView {
                    data: Seq::new(old(self)@.tape.data.len(), |i: int| 0u8),
                    ptr: 0,
                    ..old(self)@.tape
                },
                mark: 0,
                stack: Seq::empty(),
            }),
            final(self)@.wf(),
    {
        self.tape.reset();
        self.instruction_index = 0;
        self.loop_stack = Vec::new();
        proof {
            assert(self@.stack =~= Seq::<nat>::empty());
        }
    }

    /// Returns a reference to the data that is stored on the current tape.
    pub fn get_data(&self) -> (r: &Vec<u8>)
        ensures
            r@ == self@.tape.data,
    {
        &self.tape.data
    }

    /// Returns a reference to the bytes the run's write instructions have
    /// emitted so far.
    pub fn get_output(&self) -> (r: &Vec<u8>)
        ensures
            r@ == self@.tape.output,
    {
        &self.tape.output
    }

    /// Supplies the bytes the run's read instructions will consume, and
    /// rewinds the reading position to their start.
    pub fn set_input(&mut self, input: Vec<u8>)
        ensures
            final(self)@ == (InterpView {
                tape: TapeView { input: input@, input_pos: 0, ..old(self)@.tape },
                ..old(self)@
            }),
    {
        self.tape.input = input;
        self.tape.input_pos = 0;
    }

    /// Dispatches the single token standing at cursor `i`, exactly as one
    /// `spec_step` of the machine.
    #[verifier::rlimit(100)]
    #[verifier::spinoff_prover]
    fn step_once(&mut self, tokens: &Vec<Token>, i: usize) -> (r: InterpreterResult<usize>)
        requires
            i < tokens@.len(),
            old(self)@.wf(),
        ensures
            final(self)@.wf(),
            ({
                let toks = views_of(tokens@);
                let s = cur_state(old(self)@, i as nat);
                match r {
                    Ok(j) => spec_step(toks, s) == StepResult::Going(
                        cur_state(final(self)@, j as nat),
                    ),
                    Err(e) => spec_step(toks, s) matches StepResult::Failed(f, msg) && e@ == msg
                        && agrees(final(self)@, f),
                }
            }),
    {
        proof {
            reveal(spec_step);
        }
        let ghost toks = views_of(tokens@);
        self.instruction_index = i;
        let token = &tokens[i];
        let next: Option<&Token> = if i < tokens.len() - 1 {
            Some(&tokens[i + 1])
        } else {
            None
        };
        proof {
            assert(toks[i as int] == tokens@[i as int]@);
            if i + 1 < tokens@.len() {
                assert(toks[i + 1] == tokens@[i + 1]@);
            }
            assert(view_opt(next) == operand_at(toks, i as nat + 1));
        }
        match token._type {
            TokenType::Pfw => {
                let steps = match expect_num_u64(next, usize::MAX as u64) {
                    Ok(v) => v as usize,
                    Err(e) => {
                        return Err(e);
                    },
                };
                match self.tape.pfw(steps) {
                    Ok(()) => Ok(i + 2),
                    Err(e) => Err(InterpreterError::from(e)),
                }
            },
            TokenType::Pbw => {
                let steps = match expect_num_u64(next, usize::MAX as u64) {
                    Ok(v) => v as usize,
                    Err(e) => {
                        return Err(e);
                    },
                };
                match self.tape.pbw(steps) {
                    Ok(()) => Ok(i + 2),
                    Err(e) => Err(InterpreterError::from(e)),
                }
            },
            TokenType::Inc => {
                let by = match expect_num_u64(next, 255) {
                    Ok(v) => v as u8,
                    Err(e) => {
                        return Err(e);
                    },
                };
                match self.tape.inc(by) {
                    Ok(()) => Ok(i + 2),
                    Err(e) => Err(InterpreterError::from(e)),
                }
            },
            TokenType::Dec => {
                let by = match expect_num_u64(next, 255) {
                    Ok(v) => v as u8,
                    Err(e) => {
                        return Err(e);
                    },
                };
                match self.tape.dec(by) {
                    Ok(()) => Ok(i + 2),
                    Err(e) => Err(InterpreterError::from(e)),
                }
            },
            TokenType::Lop => {
                self.loop_stack.push(i);
                proof {
                    assert(self@.stack =~= old(self)@.stack.push(i as nat));
                }
                Ok(i + 1)
            },
            TokenType::Pol => {
                if self.loop_stack.len() == 0 {
                    return Err(
                        InterpreterError {
                            description: String::from_str(
                                "Expected an index on the loop stack. Found nothing.",
                            ),
                        },
                    );
                }
                let index = self.loop_stack[self.loop_stack.len() - 1];
                match self.tape.get_current_value() {
                    Err(e) => Err(InterpreterError::from(e)),
                    Ok(val) => {
                        if val == 0 {
                            self.loop_stack.pop();
                            proof {
                                assert(self@.stack =~= old(self)@.stack.drop_last());
                            }
                            Ok(i + 1)
                        } else {
                            proof {
                                assert(old(self)@.stack.last() == index as nat);
                            }
                            Ok(index + 1)
                        }
                    },
                }
            },
            TokenType::Wrt => match self.tape.wrt() {
                Ok(()) => Ok(i + 1),
                Err(e) => Err(InterpreterError::from(e)),
            },
            TokenType::Wrti8 => match self.tape.wrti8() {
                Ok(()) => Ok(i + 1),
                Err(e) => Err(InterpreterError::from(e)),
            },
            TokenType::Wrti16 => match self.tape.wrti16() {
                Ok(()) => Ok(i + 1),
                Err(e) => Err(InterpreterError::from(e)),
            },
            TokenType::Wrti32 => match self.tape.wrti32() {
                Ok(()) => Ok(i + 1),
                Err(e) => Err(InterpreterError::from(e)),
            },
            TokenType::Wrti64 => match self.tape.wrti64() {
                Ok(()) => Ok(i + 1),
                Err(e) => Err(InterpreterError::from(e)),
            },
            TokenType::Wrtu8 => match self.tape.wrtu8() {
                Ok(()) => Ok(i + 1),
                Err(e) => Err(InterpreterError::from(e)),
            },
            TokenType::Wrtu16 => match self.tape.wrtu16() {
                Ok(()) => Ok(i + 1),
                Err(e) => Err(InterpreterError::from(e)),
            },
            TokenType::Wrtu32 => match self.tape.wrtu32() {
                Ok(()) => Ok(i + 1),
                Err(e) => Err(InterpreterError::from(e)),
            },
            TokenType::Wrtu64 => match self.tape.wrtu64() {
                Ok(()) => Ok(i + 1),
                Err(e) => Err(InterpreterError::from(e)),
            },
            TokenType::Wrtf32 => match self.tape.wrtf32() {
                Ok(()) => Ok(i + 1),
                Err(e) => Err(InterpreterError::from(e)),
            },
            TokenType::Wrtf64 => match self.tape.wrtf64() {
                Ok(()) => Ok(i + 1),
                Err(e) => Err(InterpreterError::from(e)),
            },
            TokenType::Rdi => match self.tape.rdi() {
                Ok(()) => Ok(i + 1),
                Err(e) => Err(InterpreterError::from(e)),
            },
            TokenType::Rda => match self.tape.rda() {
                Ok(()) => Ok(i + 1),
                Err(e) => Err(InterpreterError::from(e)),
            },
            TokenType::Wra => match self.tape.wra() {
                Ok(()) => Ok(i + 1),
                Err(e) => Err(InterpreterError::from(e)),
            },
            TokenType::Clr => match self.tape.clr() {
                Ok(()) => Ok(i + 1),
                Err(e) => Err(InterpreterError::from(e)),
            },
            TokenType::SetStr => match next {
                None => Err(
                    InterpreterError {
                        description: String::from_str("Expected a value. Found nothing."),
                    },
                ),
                Some(t2) => match self.tape.set_raw(&t2.value) {
                    Ok(()) => Ok(i + 2),
                    Err(e) => Err(InterpreterError::from(e)),
                },
            },
            TokenType::Seti8 => {
                let v = match expect_num_i64(next, i8::MIN as i64, i8::MAX as i64) {
                    Ok(v) => v as i8,
                    Err(e) => {
                        return Err(e);
                    },
                };
                match self.tape.seti8(v) {
                    Ok(()) => Ok(i + 2),
                    Err(e) => Err(InterpreterError::from(e)),
                }
            },
            TokenType::Seti16 => {
                let v = match expect_num_i64(next, i16::MIN as i64, i16::MAX as i64) {
                    Ok(v) => v as i16,
                    Err(e) => {
                        return Err(e);
                    },
                };
                match self.tape.seti16(v) {
                    Ok(()) => Ok(i + 2),
                    Err(e) => Err(InterpreterError::from(e)),
                }
            },
            TokenType::Seti32 => {
                let v = match expect_num_i64(next, i32::MIN as i64, i32::MAX as i64) {
                    Ok(v) => v as i32,
                    Err(e) => {
                        return Err(e);
                    },
                };
                match self.tape.seti32(v) {
                    Ok(()) => Ok(i + 2),
                    Err(e) => Err(InterpreterError::from(e)),
                }
            },
            TokenType::Seti64 => {
                let v = match expect_num_i64(next, i64::MIN, i64::MAX) {
                    Ok(v) => v,
                    Err(e) => {
                        return Err(e);
                    },
                };
                match self.tape.seti64(v) {
                    Ok(()) => Ok(i + 2),
                    Err(e) => Err(InterpreterError::from(e)),
                }
            },
            TokenType::Setu8 => {
                let v = match expect_num_u64(next, u8::MAX as u64) {
                    Ok(v) => v as u8,
                    Err(e) => {
                        return Err(e);
                    },
                };
                match self.tape.setu8(v) {
                    Ok(()) => Ok(i + 2),
                    Err(e) => Err(InterpreterError::from(e)),
                }
            },
            TokenType::Setu16 => {
                let v = match expect_num_u64(next, u16::MAX as u64) {
                    Ok(v) => v as u16,
                    Err(e) => {
                        return Err(e);
                    },
                };
                match self.tape.setu16(v) {
                    Ok(()) => Ok(i + 2),
                    Err(e) => Err(InterpreterError::from(e)),
                }
            },
            TokenType::Setu32 => {
                let v = match expect_num_u64(next, u32::MAX as u64) {
                    Ok(v) => v as u32,
                    Err(e) => {
                        return Err(e);
                    },
                };
                match self.tape.setu32(v) {
                    Ok(()) => Ok(i + 2),
                    Err(e) => Err(InterpreterError::from(e)),
                }
            },
            TokenType::Setu64 => {
                let v = match expect_num_u64(next, u64::MAX) {
                    Ok(v) => v,
                    Err(e) => {
                        return Err(e);
                    },
                };
                match self.tape.setu64(v) {
                    Ok(()) => Ok(i + 2),
                    Err(e) => Err(InterpreterError::from(e)),
                }
            },
            TokenType::Setf32 => {
                let v = match expect_operand(next) {
                    Ok(v) => v,
                    Err(e) => {
                        return Err(e);
                    },
                };
                match crate::float::parse_float32(v.as_slice()) {
                    Some(bytes) => match self.tape.set_raw(&bytes) {
                        Ok(()) => Ok(i + 2),
                        Err(e) => Err(InterpreterError::from(e)),
                    },
                    None => Err(InterpreterError { description: bad_operand_msg(v) }),
                }
            },
            TokenType::Setf64 => {
                let v = match expect_operand(next) {
                    Ok(v) => v,
                    Err(e) => {
                        return Err(e);
                    },
                };
                match crate::float::parse_float64(v.as_slice()) {
                    Some(bytes) => match self.tape.set_raw(&bytes) {
                        Ok(()) => Ok(i + 2),
                        Err(e) => Err(InterpreterError::from(e)),
                    },
                    None => Err(InterpreterError { description: bad_operand_msg(v) }),
                }
            },
            TokenType::Num => Err(
                InterpreterError { description: String::from_str("Unexpected error.") },
            ),
            TokenType::Unknown => Err(
                InterpreterError {
                    description: unknown_token_msg(&token.value, token.line, token.column),
                },
            ),
        }
    }

    /// Starts the interpreter on the given source bytes.
    ///
    /// The source is tokenized once, then the machine runs: the result and
    /// the interpreter's final state are exactly what the step machine
    /// reaches, unless the run outlives the step budget, which ends it with
    /// an error of its own.
    ///
    /// # Arguments
    /// * `source` - The bytes of the TRNG code to run.
    #[verifier::rlimit(100)]
    #[verifier::spinoff_prover]
    pub fn run(&mut self, source: &[u8]) -> (r: InterpreterResult<()>)
        requires
            old(self)@.wf(),
            source@.len() < u32::MAX,
        ensures
            final(self)@.wf(),
            ({
                let toks = spec_program(source@);
                let init = init_state(old(self)@);
                match r {
                    Ok(()) => exists|n: nat|
                        #[trigger] run_steps(toks, init, n) matches StepResult::Done(f) && agrees(
                            final(self)@,
                            f,
                        ),
                    Err(e) => (exists|n: nat|
                        #[trigger] run_steps(toks, init, n) matches StepResult::Failed(f, msg)
                            && e@ == msg && agrees(final(self)@, f)) || (run_steps(
                        toks,
                        init,
                        STEP_LIMIT as nat,
                    ) matches StepResult::Going(f) && e@ == msg_step_limit() && agrees(
                        final(self)@,
                        f,
                    )),
                }
            }),
    {
        let mut lexer = Lexer::new();
        let tokens = lexer.tokenize(source);
        let ghost toks = views_of(tokens@);
        let ghost init = init_state(old(self)@);
        proof {
            assert(toks == spec_program(source@));
        }
        let mut i: usize = 0;
        let mut fuel: u64 = STEP_LIMIT;
        while i < tokens.len()
            invariant
                self@.wf(),
                toks == views_of(tokens@),
                toks == spec_program(source@),
                init == init_state(old(self)@),
                fuel <= STEP_LIMIT,
                run_steps(toks, init, (STEP_LIMIT - fuel) as nat) == StepResult::Going(
                    cur_state(self@, i as nat),
                ),
            decreases fuel,
        {
            if fuel == 0 {
                proof {
                    assert(run_steps(toks, init, STEP_LIMIT as nat) == StepResult::Going(
                        cur_state(self@, i as nat),
                    ));
                }
                return Err(
                    InterpreterError {
                        description: String::from_str(
                            "The run exceeded the interpreter's step budget.",
                        ),
                    },
                );
            }
            let ghost n0 = (STEP_LIMIT - fuel) as nat;
            let ghost s0 = cur_state(self@, i as nat);
            proof {
                lemma_run_steps_extend(toks, init, n0, s0);
            }
            fuel = fuel - 1;
            match self.step_once(&tokens, i) {
                Ok(j) => {
                    proof {
                        assert(run_steps(toks, init, n0 + 1) == StepResult::Going(
                            cur_state(self@, j as nat),
                        ));
                    }
                    i = j;
                },
                Err(e) => {
                    proof {
                        assert(run_steps(toks, init, n0 + 1) matches StepResult::Failed(f, msg)
                            && e@ == msg && agrees(self@, f));
                    }
                    return Err(e);
                },
            }
        }
        proof {
            reveal(spec_step);
            let nf = (STEP_LIMIT - fuel) as nat;
            let sf = cur_state(self@, i as nat);
            lemma_run_steps_extend(toks, init, nf, sf);
            assert(spec_step(toks, sf) == StepResult::Done(sf));
            assert(run_steps(toks, init, nf + 1) matches StepResult::Done(f) && agrees(self@, f));
        }
        Ok(())
    }
}

// ---------------------------------------------------------------------------
// Laws
// ---------------------------------------------------------------------------

/// Once the machine has halted it stays halted: taking more steps changes
/// nothing.  With this, the halt that `run`'s contract promises is the only
/// one the machine can reach.
pub proof fn lemma_run_steps_stable(toks: Seq<TokenView>, s: RunState, n: nat, m: nat)
    requires
        n <= m,
        !(run_steps(toks, s, n) is Going),
    ensures
        run_steps(toks, s, m) == run_steps(toks, s, n),
    decreases m,
{
    if n == 0 {
    } else {
        match spec_step(toks, s) {
            StepResult::Going(s2) => {
                lemma_run_steps_stable(toks, s2, (n - 1) as nat, (m - 1) as nat);
            },
            _ => {},
        }
    }
}

/// Law: dispatching an unknown token fails at once, with a message that
/// carries the token's own text and its line and column.
pub proof fn lemma_unknown_token_fails(toks: Seq<TokenView>, s: RunState)
    requires
        s.idx < toks.len(),
        toks[s.idx as int].kind == TokenType::Unknown,
    ensures
        spec_step(toks, s) == StepResult::Failed(
            RunState { mark: s.idx, ..s },
            msg_unknown_token(
                toks[s.idx as int].value,
                toks[s.idx as int].line,
                toks[s.idx as int].column,
            ),
        ),
{
    reveal(spec_step);
}

/// Law: a program that is one unrecognized alphabetic word fails on its
/// first step, with a message that carries the word itself and its
/// position, line one, column one.
pub proof fn lemma_unknown_word_program_fails(src: Seq<u8>, iv: InterpView)
    requires
        src.len() > 0,
        forall|i: int|
            0 <= i < src.len() ==> crate::lexer::is_alphabetic_byte(#[trigger] src[i]),
        crate::lexer::spec_classify(src) == TokenType::Unknown,
    ensures
        run_steps(spec_program(src), init_state(iv), 1) == StepResult::Failed(
            RunState { tape: iv.tape, idx: 0, mark: 0, stack: iv.stack },
            msg_unknown_token(src, 1, 1),
        ),
{
    crate::lexer::lemma_unknown_word_single_token(
        src,
        LexState { line: 1, column: 1, buf: Seq::empty() },
    );
    let toks = spec_program(src);
    let init = init_state(iv);
    lemma_unknown_token_fails(toks, init);
    assert(run_steps(toks, init, 1) == spec_step(toks, init));
}

/// Law: a `loop-open` immediately followed by a `loop-close`, with the
/// current cell already zero, executes its (empty) body zero times: two
/// steps later the machine carries on just past the `loop-close`, the tape
/// and the loop stack as they were.
pub proof fn lemma_empty_loop_runs_zero_times(toks: Seq<TokenView>, s: RunState)
    requires
        s.idx + 1 < toks.len(),
        toks[s.idx as int].kind == TokenType::Lop,
        toks[(s.idx + 1) as int].kind == TokenType::Pol,
        s.tape.ptr < s.tape.data.len(),
        s.tape.data[s.tape.ptr as int] == 0,
    ensures
        run_steps(toks, s, 2) == StepResult::Going(
            RunState { tape: s.tape, idx: s.idx + 2, mark: s.idx + 1, stack: s.stack },
        ),
{
    reveal(spec_step);
    let s1 = RunState { idx: s.idx + 1, mark: s.idx, stack: s.stack.push(s.idx), tape: s.tape };
    assert(spec_step(toks, s) == StepResult::Going(s1));
    assert(s.stack.push(s.idx).drop_last() =~= s.stack);
    let s2 = RunState { tape: s.tape, idx: s.idx + 2, mark: s.idx + 1, stack: s.stack };
    assert(spec_step(toks, s1) == StepResult::Going(s2));
    assert(run_steps(toks, s, 2) == run_steps(toks, s1, 1));
    assert(run_steps(toks, s1, 1) == run_steps(toks, s2, 0));
}

/// The token shape of the countdown loop the next law speaks of: a
/// `loop-open`, a decrement of the cell by one, and the `loop-close`.
pub open spec fn countdown_loop_at(toks: Seq<TokenView>, at: nat) -> bool {
    &&& at + 3 < toks.len()
    &&& toks[at as int].kind == TokenType::Lop
    &&& toks[(at + 1) as int].kind == TokenType::Dec
    &&& toks[(at + 2) as int].kind == TokenType::Num
    &&& toks[(at + 2) as int].value =~= seq![49u8]
    &&& toks[(at + 3) as int].kind == TokenType::Pol
}

/// The walking part of the countdown law: standing on the decrement with the
/// loop already open and the cell at `v >= 1`, the body runs exactly `v`
/// times -- two steps per pass -- and the machine leaves the loop with the
/// cell at zero and the stack as it stood before the loop opened.
proof fn lemma_countdown_iterations(toks: Seq<TokenView>, t: RunState, at: nat, v: u8)
    requires
        countdown_loop_at(toks, at),
        t.idx == at + 1,
        t.stack.len() > 0,
        t.stack.last() == at,
        t.tape.ptr < t.tape.data.len(),
        t.tape.data[t.tape.ptr as int] == v,
        v >= 1,
    ensures
        run_steps(toks, t, 2 * (v as nat)) == StepResult::Going(
            RunState {
                tape: TapeView { data: t.tape.data.update(t.tape.ptr as int, 0u8), ..t.tape },
                idx: at + 4,
                mark: at + 3,
                stack: t.stack.drop_last(),
            },
        ),
    decreases v,
{
    reveal(spec_step);
    let ptr = t.tape.ptr as int;
    let num = toks[(at + 2) as int].value;
    assert(num == seq![49u8]);
    assert(num.len() == 1);
    assert(num[0] == 49u8);
    assert(num.drop_last() =~= Seq::<u8>::empty());
    assert(num.last() == 49u8);
    assert(crate::text::digits_val(Seq::<u8>::empty()) == 0);
    assert(crate::text::digits_val(num) == crate::text::digits_val(num.drop_last()) * 10
        + crate::text::digit_val(num.last()));
    assert(crate::text::digits_val(num) == 1);
    assert(spec_parse_unsigned(num, 255) == Some(1nat));
    let tape1 = TapeView { data: t.tape.data.update(ptr, (v - 1) as u8), ..t.tape };
    let s1 = RunState { tape: tape1, idx: at + 3, mark: at + 1, stack: t.stack };
    assert(spec_step(toks, t) == StepResult::Going(s1));
    if v == 1 {
        let s2 = RunState { tape: tape1, idx: at + 4, mark: at + 3, stack: t.stack.drop_last() };
        assert(spec_step(toks, s1) == StepResult::Going(s2));
        assert(run_steps(toks, t, 2) == run_steps(toks, s1, 1));
        assert(run_steps(toks, s1, 1) == run_steps(toks, s2, 0));
        assert(tape1.data =~= t.tape.data.update(ptr, 0u8));
    } else {
        let s2 = RunState { tape: tape1, idx: at + 1, mark: at + 3, stack: t.stack };
        assert(spec_step(toks, s1) == StepResult::Going(s2));
        lemma_countdown_iterations(toks, s2, at, (v - 1) as u8);
        assert(tape1.data.update(ptr, 0u8) =~= t.tape.data.update(ptr, 0u8));
        assert(run_steps(toks, t, 2 * (v as nat)) == run_steps(
            toks,
            s1,
            (2 * (v as nat) - 1) as nat,
        ));
        assert(run_steps(toks, s1, (2 * (v as nat) - 1) as nat) == run_steps(
            toks,
            s2,
            (2 * (v as nat) - 2) as nat,
        ));
        assert(2 * (v as nat) - 2 == 2 * ((v - 1) as nat));
    }
}

/// Law: a `loop-open` ... `loop-close` pair whose body decrements the
/// current cell by one runs that body exactly as many times as the cell
/// held -- one step to open the loop, two steps per pass -- before the
/// machine carries on past the `loop-close`, the cell at zero.
pub proof fn lemma_countdown_loop_runs_cell_times(
    toks: Seq<TokenView>,
    s: RunState,
    at: nat,
    v: u8,
)
    requires
        countdown_loop_at(toks, at),
        s.idx == at,
        s.tape.ptr < s.tape.data.len(),
        s.tape.data[s.tape.ptr as int] == v,
        v >= 1,
    ensures
        run_steps(toks, s, 1 + 2 * (v as nat)) == StepResult::Going(
            RunState {
                tape: TapeView { data: s.tape.data.update(s.tape.ptr as int, 0u8), ..s.tape },
                idx: at + 4,
                mark: at + 3,
                stack: s.stack,
            },
        ),
{
    reveal(spec_step);
    let s1 = RunState { tape: s.tape, idx: at + 1, mark: at, stack: s.stack.push(at) };
    assert(spec_step(toks, s) == StepResult::Going(s1));
    lemma_countdown_iterations(toks, s1, at, v);
    assert(s.stack.push(at).drop_last() =~= s.stack);
    assert(run_steps(toks, s, 1 + 2 * (v as nat)) == run_steps(toks, s1, 2 * (v as nat)));
}

impl Default for Interpreter {
    /// An interpreter over a tape of the default size.
    fn default() -> (r: Self)
        ensures
            r@ == (InterpView {
                tape: TapeView {
                    data: Seq::new(crate::DEFAULT_TAPE_SIZE as nat, |i: int| 0u8),
                    ptr: 0,
                    input: Seq::empty(),
                    input_pos: 0,
                    output: Seq::empty(),
                },
                mark: 0,
                stack: Seq::empty(),
            }),
            r@.wf(),
    {
        Interpreter::new(crate::DEFAULT_TAPE_SIZE)
    }
}

} // verus!
