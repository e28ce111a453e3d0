//! The tape: a fixed-capacity byte memory with a movable pointer, checked
//! pointer and cell arithmetic, big-endian multi-width numeric access, and
//! buffered byte input and output.
//!
//! Every operation is specified against `TapeView`, the mathematical model of
//! a tape: each executable method promises that its result and its effect on
//! the tape equal what the corresponding model function says.

use vstd::prelude::*;
use vstd::string::*;

use crate::num::{be_val, Num};
use crate::text::{append_dec_u64, dec_chars, int_dec_bytes};

verus! {

/// Kinds of tape errors.
#[derive(Debug, Clone, Copy, PartialEq, Eq, Structural)]
pub enum TapeErrorType {
    /// A pointer or a read/write range fell outside the tape.
    Index,
    /// Checked cell arithmetic would wrap.
    Overflow,
    /// An underlying stream failed.
    Io,
}

/// Model of a tape error: its kind and the characters of its description.
pub ghost struct TapeErrorView {
    pub kind: TapeErrorType,
    pub text: Seq<char>,
}

/// An error reported by a tape operation.
#[derive(Debug)]
pub struct TapeError {
    description: String,
    _type: TapeErrorType,
}

impl View for TapeError {
    type V = TapeErrorView;

    closed spec fn view(&self) -> TapeErrorView {
        TapeErrorView { kind: self._type, text: self.description@ }
    }
}

impl TapeError {
    /// Creates an error of the given kind carrying the given description.
    pub fn new(_type: TapeErrorType, description: String) -> (r: TapeError)
        ensures
            r@ == (TapeErrorView { kind: _type, text: description@ }),
    {
        Self { _type, description }
    }

    /// The kind of the error.
    pub fn error_type(&self) -> (r: TapeErrorType)
        ensures
            r == self@.kind,
    {
        self._type
    }

    /// The description of the error alone.
    pub fn description(&self) -> (r: &String)
        ensures
            r@ == self@.text,
    {
        &self.description
    }

    /// Full rendering of the error, kind included, as other components
    /// embed it.
    pub fn describe(&self) -> (r: String)
        ensures
            r@ == spec_tape_error_text(self@),
    {
        let mut s = String::from_str("Tape Error [");
        s.append(error_type_name(&self._type));
        s.append("]: ");
        s.append(self.description.as_str());
        s
    }
}

/// The printed name of an error kind.
pub open spec fn spec_error_type_name(t: TapeErrorType) -> Seq<char> {
    match t {
        TapeErrorType::Index => "Index error"@,
        TapeErrorType::Overflow => "Overflow error"@,
        TapeErrorType::Io => "IO error"@,
    }
}

/// The full rendering of a tape error, as other components embed it.
pub open spec fn spec_tape_error_text(e: TapeErrorView) -> Seq<char> {
    "Tape Error ["@ + spec_error_type_name(e.kind) + "]: "@ + e.text
}

fn error_type_name(t: &TapeErrorType) -> (r: &'static str)
    ensures
        r@ == spec_error_type_name(*t),
{
    match t {
        TapeErrorType::Index => "Index error",
        TapeErrorType::Overflow => "Overflow error",
        TapeErrorType::Io => "IO error",
    }
}

/// Type alias for a simple result with a `TapeError`.
pub type TapeResult<T> = Result<T, TapeError>;

// ---------------------------------------------------------------------------
// Error messages
// ---------------------------------------------------------------------------

pub open spec fn msg_get_invalid(ptr: nat) -> Seq<char> {
    "Getting the current value at pointer index "@ + dec_chars(ptr) + " is invalid."@
}

pub open spec fn msg_pfw(steps: nat) -> Seq<char> {
    "Moving the pointer "@ + dec_chars(steps)
        + " step(s) forward would result in overshooting the tape."@
}

pub open spec fn msg_pbw(steps: nat) -> Seq<char> {
    "Moving the pointer "@ + dec_chars(steps)
        + " step(s) backward would result in overshooting the tape."@
}

pub open spec fn msg_inc(by: nat) -> Seq<char> {
    "Adding "@ + dec_chars(by) + " to the current cell value would result in an overflow."@
}

pub open spec fn msg_dec(by: nat) -> Seq<char> {
    "Subtracting "@ + dec_chars(by)
        + " from the current cell value would result in an overflow."@
}

pub open spec fn msg_step_fw() -> Seq<char> {
    "Moving the pointer 1 step forward would result in overshooting the tape."@
}

pub open spec fn msg_store(ptr: nat) -> Seq<char> {
    "Writing to the cell at pointer index "@ + dec_chars(ptr) + " is invalid."@
}

pub open spec fn msg_read_range(w: nat, ptr: nat) -> Seq<char> {
    "Reading "@ + dec_chars(w) + " byte(s) at pointer index "@ + dec_chars(ptr)
        + " would overshoot the tape."@
}

fn get_invalid_msg(ptr: usize) -> (r: String)
    ensures
        r@ == msg_get_invalid(ptr as nat),
{
    let mut s = String::from_str("Getting the current value at pointer index ");
    append_dec_u64(&mut s, ptr as u64);
    s.append(" is invalid.");
    s
}

fn pfw_msg(steps: usize) -> (r: String)
    ensures
        r@ == msg_pfw(steps as nat),
{
    let mut s = String::from_str("Moving the pointer ");
    append_dec_u64(&mut s, steps as u64);
    s.append(" step(s) forward would result in overshooting the tape.");
    s
}

fn pbw_msg(steps: usize) -> (r: String)
    ensures
        r@ == msg_pbw(steps as nat),
{
    let mut s = String::from_str("Moving the pointer ");
    append_dec_u64(&mut s, steps as u64);
    s.append(" step(s) backward would result in overshooting the tape.");
    s
}

fn inc_msg(by: u8) -> (r: String)
    ensures
        r@ == msg_inc(by as nat),
{
    let mut s = String::from_str("Adding ");
    append_dec_u64(&mut s, by as u64);
    s.append(" to the current cell value would result in an overflow.");
    s
}

fn dec_msg(by: u8) -> (r: String)
    ensures
        r@ == msg_dec(by as nat),
{
    let mut s = String::from_str("Subtracting ");
    append_dec_u64(&mut s, by as u64);
    s.append(" from the current cell value would result in an overflow.");
    s
}

fn read_range_msg(w: usize, ptr: usize) -> (r: String)
    ensures
        r@ == msg_read_range(w as nat, ptr as nat),
{
    let mut s = String::from_str("Reading ");
    append_dec_u64(&mut s, w as u64);
    s.append(" byte(s) at pointer index ");
    append_dec_u64(&mut s, ptr as u64);
    s.append(" would overshoot the tape.");
    s
}

fn store_msg(ptr: usize) -> (r: String)
    ensures
        r@ == msg_store(ptr as nat),
{
    let mut s = String::from_str("Writing to the cell at pointer index ");
    append_dec_u64(&mut s, ptr as u64);
    s.append(" is invalid.");
    s
}

// ---------------------------------------------------------------------------
// The model
// ---------------------------------------------------------------------------

/// Model of a tape: its cells, its pointer, and the two byte streams it
/// reads from and writes to.
pub ghost struct TapeView {
    pub data: Seq<u8>,
    pub ptr: nat,
    pub input: Seq<u8>,
    pub input_pos: nat,
    pub output: Seq<u8>,
}

/// What one model operation did: the tape afterwards (partial effects
/// included), and the error if the operation failed.
pub ghost struct TapeOutcome {
    pub tape: TapeView,
    pub err: Option<TapeErrorView>,
}

pub open spec fn outcome_ok(t: TapeView) -> TapeOutcome {
    TapeOutcome { tape: t, err: None }
}

pub open spec fn outcome_fail(t: TapeView, kind: TapeErrorType, text: Seq<char>) -> TapeOutcome {
    TapeOutcome { tape: t, err: Some(TapeErrorView { kind, text }) }
}

impl TapeView {
    /// The cell under the pointer, or an `Index` error.
    pub open spec fn get_r(self) -> Result<u8, TapeErrorView> {
        if self.ptr < self.data.len() {
            Ok(self.data[self.ptr as int])
        } else {
            Err(TapeErrorView { kind: TapeErrorType::Index, text: msg_get_invalid(self.ptr) })
        }
    }

    /// The tape with the cell under the pointer replaced.
    pub open spec fn with_cell(self, b: u8) -> TapeView {
        TapeView { data: self.data.update(self.ptr as int, b), ..self }
    }

    /// Checked forward movement.
    pub open spec fn pfw_r(self, steps: nat) -> TapeOutcome {
        if self.ptr + steps >= self.data.len() {
            outcome_fail(self, TapeErrorType::Index, msg_pfw(steps))
        } else {
            outcome_ok(TapeView { ptr: self.ptr + steps, ..self })
        }
    }

    /// Checked backward movement.
    pub open spec fn pbw_r(self, steps: nat) -> TapeOutcome {
        if steps <= self.ptr {
            outcome_ok(TapeView { ptr: (self.ptr - steps) as nat, ..self })
        } else {
            outcome_fail(self, TapeErrorType::Index, msg_pbw(steps))
        }
    }

    /// Checked cell increment.
    pub open spec fn inc_r(self, by: u8) -> TapeOutcome {
        match self.get_r() {
            Ok(cur) => if cur + by <= 255 {
                outcome_ok(self.with_cell((cur + by) as u8))
            } else {
                outcome_fail(self, TapeErrorType::Overflow, msg_inc(by as nat))
            },
            Err(e) => TapeOutcome { tape: self, err: Some(e) },
        }
    }

    /// Checked cell decrement.
    pub open spec fn dec_r(self, by: u8) -> TapeOutcome {
        match self.get_r() {
            Ok(cur) => if by <= cur {
                outcome_ok(self.with_cell((cur - by) as u8))
            } else {
                outcome_fail(self, TapeErrorType::Overflow, msg_dec(by as nat))
            },
            Err(e) => TapeOutcome { tape: self, err: Some(e) },
        }
    }

    /// Checked write of one byte at the pointer, the pointer unmoved.
    pub open spec fn store_r(self, b: u8) -> TapeOutcome {
        if self.ptr < self.data.len() {
            outcome_ok(self.with_cell(b))
        } else {
            outcome_fail(self, TapeErrorType::Index, msg_store(self.ptr))
        }
    }

    /// One checked step of the pointer, used by the operations that advance
    /// cell by cell.
    pub open spec fn step_fw_r(self) -> TapeOutcome {
        if self.ptr + 1 <= usize::MAX {
            outcome_ok(TapeView { ptr: (self.ptr + 1) as nat, ..self })
        } else {
            outcome_fail(self, TapeErrorType::Index, msg_step_fw())
        }
    }

    /// Emitting the cell under the pointer.
    pub open spec fn wrt_r(self) -> TapeOutcome {
        match self.get_r() {
            Ok(cur) => outcome_ok(TapeView { output: self.output.push(cur), ..self }),
            Err(e) => TapeOutcome { tape: self, err: Some(e) },
        }
    }

    /// Reading one byte of input into the current cell; exhausted input is
    /// no error and does nothing.
    pub open spec fn rdi_r(self) -> TapeOutcome {
        if self.input_pos < self.input.len() {
            let b = self.input[self.input_pos as int];
            let consumed = TapeView { input_pos: self.input_pos + 1, ..self };
            consumed.store_r(b)
        } else {
            outcome_ok(self)
        }
    }

    /// Writing a byte string cell by cell, the pointer advancing once per
    /// byte.
    pub open spec fn set_r(self, bytes: Seq<u8>) -> TapeOutcome
        decreases bytes.len(),
    {
        if bytes.len() == 0 {
            outcome_ok(self)
        } else {
            let o = self.store_r(bytes[0]);
            if o.err is Some {
                o
            } else {
                let o2 = o.tape.step_fw_r();
                if o2.err is Some {
                    o2
                } else {
                    o2.tape.set_r(bytes.skip(1))
                }
            }
        }
    }

    /// Emitting cells forward, stopping (without emitting) at the first zero
    /// cell, which the pointer then rests on.
    pub open spec fn wra_r(self) -> TapeOutcome
        decreases self.data.len() - self.ptr,
    {
        match self.get_r() {
            Err(e) => TapeOutcome { tape: self, err: Some(e) },
            Ok(b) => if b == 0 {
                outcome_ok(self)
            } else {
                let emitted = TapeView { output: self.output.push(b), ..self };
                let o = emitted.step_fw_r();
                if o.err is Some {
                    o
                } else {
                    o.tape.wra_r()
                }
            },
        }
    }

    /// Reading input bytes into successive cells until a line feed is
    /// consumed; the line feed itself is not stored.
    pub open spec fn rda_r(self) -> TapeOutcome
        decreases self.input.len() - self.input_pos,
    {
        if self.input_pos >= self.input.len() {
            outcome_ok(self)
        } else {
            let b = self.input[self.input_pos as int];
            let consumed = TapeView { input_pos: self.input_pos + 1, ..self };
            if b == 10 {
                outcome_ok(consumed)
            } else {
                let o = consumed.store_r(b);
                if o.err is Some {
                    o
                } else {
                    let o2 = o.tape.step_fw_r();
                    if o2.err is Some {
                        o2
                    } else {
                        o2.tape.rda_r()
                    }
                }
            }
        }
    }

    /// Zeroing the current cell and walking forward, stopping the step after
    /// a cell is reached that already held zero before this pass.
    pub open spec fn clr_r(self) -> TapeOutcome {
        let o = self.store_r(0);
        if o.err is Some {
            o
        } else {
            o.tape.clr_go()
        }
    }

    /// The walking part of `clr_r`, entered after the cell under the pointer
    /// was zeroed.
    pub open spec fn clr_go(self) -> TapeOutcome
        decreases self.data.len() - self.ptr,
    {
        let o = self.step_fw_r();
        if o.err is Some {
            o
        } else {
            match o.tape.get_r() {
                Err(e) => TapeOutcome { tape: o.tape, err: Some(e) },
                Ok(b) => if b == 0 {
                    outcome_ok(o.tape)
                } else {
                    let o2 = o.tape.store_r(0);
                    if o2.err is Some {
                        o2
                    } else {
                        o2.tape.clr_go()
                    }
                },
            }
        }
    }

    /// The `w` consecutive cells under the pointer, or an `Index` error when
    /// they would overshoot the tape.
    pub open spec fn read_window(self, w: nat) -> Result<Seq<u8>, TapeErrorView> {
        if self.ptr + w <= self.data.len() {
            Ok(self.data.subrange(self.ptr as int, (self.ptr + w) as int))
        } else {
            Err(
                TapeErrorView {
                    kind: TapeErrorType::Index,
                    text: msg_read_range(w, self.ptr),
                },
            )
        }
    }

    /// Emitting the decimal text of the number whose big-endian bytes stand
    /// under the pointer, the pointer unmoved.
    pub open spec fn wrt_num_r<T: Num>(self) -> TapeOutcome {
        match self.read_window(T::spec_width()) {
            Ok(win) => outcome_ok(
                TapeView {
                    output: self.output + int_dec_bytes(T::of_unsigned(be_val(win)).to_int()),
                    ..self
                },
            ),
            Err(e) => TapeOutcome { tape: self, err: Some(e) },
        }
    }

    /// Writing the big-endian bytes of a numeric value into successive
    /// cells, the pointer advancing once per byte.
    pub open spec fn set_num_r<T: Num>(self, v: T) -> TapeOutcome {
        self.set_r(crate::num::be_bytes(v.to_unsigned(), T::spec_width()))
    }

    /// Emitting the decimal text of the 32-bit IEEE-754 value whose
    /// big-endian bytes stand under the pointer, the pointer unmoved.
    pub open spec fn wrtf32_r(self) -> TapeOutcome {
        match self.read_window(4) {
            Ok(w) => outcome_ok(
                TapeView {
                    output: self.output + crate::float::float32_text(w[0], w[1], w[2], w[3]),
                    ..self
                },
            ),
            Err(e) => TapeOutcome { tape: self, err: Some(e) },
        }
    }

    /// Emitting the decimal text of the 64-bit IEEE-754 value whose
    /// big-endian bytes stand under the pointer, the pointer unmoved.
    pub open spec fn wrtf64_r(self) -> TapeOutcome {
        match self.read_window(8) {
            Ok(w) => outcome_ok(
                TapeView {
                    output: self.output + crate::float::float64_text(
                        w[0],
                        w[1],
                        w[2],
                        w[3],
                        w[4],
                        w[5],
                        w[6],
                        w[7],
                    ),
                    ..self
                },
            ),
            Err(e) => TapeOutcome { tape: self, err: Some(e) },
        }
    }
}

// ---------------------------------------------------------------------------
// The tape itself
// ---------------------------------------------------------------------------

/// Simulates the tape for TRNG.
///
/// The instructions that read and write bytes work against the `input` and
/// `output` buffers: a caller supplies the input up front and collects the
/// output after a run.
pub struct Tape {
    pub data: Vec<u8>,
    pub ptr_index: usize,
    pub input: Vec<u8>,
    pub input_pos: usize,
    pub output: Vec<u8>,
}

impl View for Tape {
    type V = TapeView;

    open spec fn view(&self) -> TapeView {
        TapeView {
            data: self.data@,
            ptr: self.ptr_index as nat,
            input: self.input@,
            input_pos: self.input_pos as nat,
            output: self.output@,
        }
    }
}

impl Tape {
    /// Function returns a new tape.
    ///
    /// The data band will have `data_band_sz` cells, all zero, with the
    /// pointer on the first and both byte buffers empty.
    pub fn new(data_band_sz: usize) -> (r: Self)
        ensures
            r@ == (TapeView {
                data: Seq::new(data_band_sz as nat, |i: int| 0u8),
                ptr: 0,
                input: Seq::empty(),
                input_pos: 0,
                output: Seq::empty(),
            }),
    {
        let r = Self {
            data: vec![0; data_band_sz],
            ptr_index: 0,
            input: Vec::new(),
            input_pos: 0,
            output: Vec::new(),
        };
        proof {
            assert(r.data@ =~= Seq::new(data_band_sz as nat, |i: int| 0u8));
        }
        r
    }

    /// Resets all cells of the tape to 0 and the pointer to the first cell,
    /// without reallocating; the byte buffers are kept.
    pub fn reset(&mut self)
        ensures
            final(self)@ == (TapeView {
                data: Seq::new(old(self)@.data.len(), |i: int| 0u8),
                ptr: 0,
                ..old(self)@
            }),
    {
        let n = self.data.len();
        let mut i: usize = 0;
        while i < n
            invariant
                n == self.data@.len(),
                0 <= i <= n,
                forall|j: int| 0 <= j < i ==> self.data@[j] == 0u8,
                self@.input == old(self)@.input,
                self@.input_pos == old(self)@.input_pos,
                self@.output == old(self)@.output,
            decreases n - i,
        {
            self.data[i] = 0;
            i += 1;
        }
        self.ptr_index = 0;
        proof {
            assert(self.data@ =~= Seq::new(old(self)@.data.len(), |i: int| 0u8));
        }
    }

    /// Gets the value of the current cell.
    pub fn get_current_value(&mut self) -> (r: TapeResult<u8>)
        ensures
            final(self)@ == old(self)@,
            match r {
                Ok(b) => old(self)@.get_r() == Ok::<u8, TapeErrorView>(b),
                Err(e) => old(self)@.get_r() == Err::<u8, TapeErrorView>(e@),
            },
    {
        if self.ptr_index < self.data.len() {
            Ok(self.data[self.ptr_index])
        } else {
            Err(TapeError::new(TapeErrorType::Index, get_invalid_msg(self.ptr_index)))
        }
    }

    /// Moves the pointer (read/write head) forward.
    ///
    /// * `steps` - The number of steps to move forward on the tape.
    pub fn pfw(&mut self, steps: usize) -> (r: TapeResult<()>)
        ensures
            ({
                let o = old(self)@.pfw_r(steps as nat);
                final(self)@ == o.tape && match r {
                    Ok(()) => o.err is None,
                    Err(e) => o.err == Some(e@),
                }
            }),
    {
        if steps >= self.data.len() || self.ptr_index >= self.data.len() - steps {
            return Err(TapeError::new(TapeErrorType::Index, pfw_msg(steps)));
        }
        self.ptr_index = self.ptr_index + steps;
        Ok(())
    }

    /// Moves the pointer (read/write head) backward.
    ///
    /// * `steps` - The number of steps to move backward on the tape.
    pub fn pbw(&mut self, steps: usize) -> (r: TapeResult<()>)
        ensures
            ({
                let o = old(self)@.pbw_r(steps as nat);
                final(self)@ == o.tape && match r {
                    Ok(()) => o.err is None,
                    Err(e) => o.err == Some(e@),
                }
            }),
    {
        if steps <= self.ptr_index {
            self.ptr_index = self.ptr_index - steps;
            Ok(())
        } else {
            Err(TapeError::new(TapeErrorType::Index, pbw_msg(steps)))
        }
    }

    /// Increments the value of the current cell
    ///
    /// * `by` - This value gets added to the value of the current cell.
    pub fn inc(&mut self, by: u8) -> (r: TapeResult<()>)
        ensures
            ({
                let o = old(self)@.inc_r(by);
                final(self)@ == o.tape && match r {
                    Ok(()) => o.err is None,
                    Err(e) => o.err == Some(e@),
                }
            }),
    {
        let cur = match self.get_current_value() {
            Ok(b) => b,
            Err(e) => {
                return Err(e);
            },
        };
        if by <= 255 - cur {
            self.data[self.ptr_index] = cur + by;
            Ok(())
        } else {
            Err(TapeError::new(TapeErrorType::Overflow, inc_msg(by)))
        }
    }

    /// Decrements the value of the current cell
    ///
    /// * `by` - This value gets subtracted from the value of the current cell.
    pub fn dec(&mut self, by: u8) -> (r: TapeResult<()>)
        ensures
            ({
                let o = old(self)@.dec_r(by);
                final(self)@ == o.tape && match r {
                    Ok(()) => o.err is None,
                    Err(e) => o.err == Some(e@),
                }
            }),
    {
        let cur = match self.get_current_value() {
            Ok(b) => b,
            Err(e) => {
                return Err(e);
            },
        };
        if by <= cur {
            self.data[self.ptr_index] = cur - by;
            Ok(())
        } else {
            Err(TapeError::new(TapeErrorType::Overflow, dec_msg(by)))
        }
    }

    /// Writes the value of the current cell to the output buffer.
    pub fn wrt(&mut self) -> (r: TapeResult<()>)
        ensures
            ({
                let o = old(self)@.wrt_r();
                final(self)@ == o.tape && match r {
                    Ok(()) => o.err is None,
                    Err(e) => o.err == Some(e@),
                }
            }),
    {
        let cur = match self.get_current_value() {
            Ok(b) => b,
            Err(e) => {
                return Err(e);
            },
        };
        self.output.push(cur);
        Ok(())
    }

    /// Reads one byte from the input buffer and stores it in the current
    /// cell; exhausted input is not an error and changes nothing.
    pub fn rdi(&mut self) -> (r: TapeResult<()>)
        ensures
            ({
                let o = old(self)@.rdi_r();
                final(self)@ == o.tape && match r {
                    Ok(()) => o.err is None,
                    Err(e) => o.err == Some(e@),
                }
            }),
    {
        if self.input_pos < self.input.len() {
            let b = self.input[self.input_pos];
            self.input_pos = self.input_pos + 1;
            self.store(b)
        } else {
            Ok(())
        }
    }

    /// Stores a byte at the pointer, failing on an out-of-range pointer.
    fn store(&mut self, byte: u8) -> (r: TapeResult<()>)
        ensures
            ({
                let o = old(self)@.store_r(byte);
                final(self)@ == o.tape && match r {
                    Ok(()) => o.err is None,
                    Err(e) => o.err == Some(e@),
                }
            }),
    {
        if self.ptr_index < self.data.len() {
            self.data[self.ptr_index] = byte;
            Ok(())
        } else {
            Err(TapeError::new(TapeErrorType::Index, store_msg(self.ptr_index)))
        }
    }

    /// Advances the pointer one step, checked against address overflow.
    fn step_fw(&mut self) -> (r: TapeResult<()>)
        ensures
            ({
                let o = old(self)@.step_fw_r();
                final(self)@ == o.tape && match r {
                    Ok(()) => o.err is None,
                    Err(e) => o.err == Some(e@),
                }
            }),
    {
        if self.ptr_index < usize::MAX {
            self.ptr_index = self.ptr_index + 1;
            Ok(())
        } else {
            Err(TapeError::new(TapeErrorType::Index, String::from_str(
                "Moving the pointer 1 step forward would result in overshooting the tape.",
            )))
        }
    }

    /// Writes each byte of `s` into successive cells, advancing the pointer
    /// once per byte.
    fn set_bytes(&mut self, s: &[u8]) -> (r: TapeResult<()>)
        ensures
            ({
                let o = old(self)@.set_r(s@);
                final(self)@ == o.tape && match r {
                    Ok(()) => o.err is None,
                    Err(e) => o.err == Some(e@),
                }
            }),
    {
        let n = s.len();
        let mut i: usize = 0;
        proof {
            assert(s@.skip(0) =~= s@);
        }
        while i < n
            invariant
                0 <= i <= n,
                n == s@.len(),
                old(self)@.set_r(s@) == self@.set_r(s@.skip(i as int)),
            decreases n - i,
        {
            let ghost rest = s@.skip(i as int);
            proof {
                assert(rest[0] == s@[i as int]);
                assert(rest.skip(1) =~= s@.skip(i + 1));
            }
            match self.store(s[i]) {
                Ok(()) => (),
                Err(e) => {
                    return Err(e);
                },
            }
            match self.step_fw() {
                Ok(()) => (),
                Err(e) => {
                    return Err(e);
                },
            }
            i += 1;
        }
        proof {
            assert(s@.skip(n as int) =~= Seq::<u8>::empty());
        }
        Ok(())
    }

    /// Sets the given value, placing each byte in a separate cell and
    /// incrementing the pointer accordingly.
    /// * `v` - The value to set.
    pub fn set(&mut self, v: &str) -> (r: TapeResult<()>)
        ensures
            ({
                let o = old(self)@.set_r(v.spec_bytes());
                final(self)@ == o.tape && match r {
                    Ok(()) => o.err is None,
                    Err(e) => o.err == Some(e@),
                }
            }),
    {
        self.set_bytes(v.as_bytes())
    }

    /// Writes the current cell and all following cells to the output buffer
    /// until a null byte is encountered.
    /// The pointer is incremented accordingly.
    pub fn wra(&mut self) -> (r: TapeResult<()>)
        ensures
            ({
                let o = old(self)@.wra_r();
                final(self)@ == o.tape && match r {
                    Ok(()) => o.err is None,
                    Err(e) => o.err == Some(e@),
                }
            }),
    {
        loop
            invariant_except_break
                old(self)@.wra_r() == self@.wra_r(),
            ensures
                old(self)@.wra_r() == outcome_ok(self@),
            decreases self@.data.len() - self@.ptr,
        {
            let b = match self.get_current_value() {
                Ok(b) => b,
                Err(e) => {
                    return Err(e);
                },
            };
            if b == 0 {
                break ;
            }
            self.output.push(b);
            match self.step_fw() {
                Ok(()) => (),
                Err(e) => {
                    return Err(e);
                },
            }
        }
        Ok(())
    }

    /// Reads bytes from the input buffer into successive cells until a line
    /// feed is consumed; the line feed itself is not stored.
    /// The pointer is incremented accordingly.
    pub fn rda(&mut self) -> (r: TapeResult<()>)
        ensures
            ({
                let o = old(self)@.rda_r();
                final(self)@ == o.tape && match r {
                    Ok(()) => o.err is None,
                    Err(e) => o.err == Some(e@),
                }
            }),
    {
        loop
            invariant_except_break
                old(self)@.rda_r() == self@.rda_r(),
            ensures
                old(self)@.rda_r() == outcome_ok(self@),
            decreases self@.input.len() - self@.input_pos,
        {
            if self.input_pos >= self.input.len() {
                break ;
            }
            let b = self.input[self.input_pos];
            self.input_pos = self.input_pos + 1;
            if b == 10 {
                break ;
            }
            match self.store(b) {
                Ok(()) => (),
                Err(e) => {
                    return Err(e);
                },
            }
            match self.step_fw() {
                Ok(()) => (),
                Err(e) => {
                    return Err(e);
                },
            }
        }
        Ok(())
    }

    /// Writes a null byte to the current cell and all following cells until a
    /// cell is reached that already held zero before this pass.
    /// The pointer is incremented accordingly.
    pub fn clr(&mut self) -> (r: TapeResult<()>)
        ensures
            ({
                let o = old(self)@.clr_r();
                final(self)@ == o.tape && match r {
                    Ok(()) => o.err is None,
                    Err(e) => o.err == Some(e@),
                }
            }),
    {
        match self.store(0) {
            Ok(()) => (),
            Err(e) => {
                return Err(e);
            },
        }
        loop
            invariant_except_break
                old(self)@.clr_r() == self@.clr_go(),
            ensures
                old(self)@.clr_r() == outcome_ok(self@),
            decreases self@.data.len() - self@.ptr,
        {
            match self.step_fw() {
                Ok(()) => (),
                Err(e) => {
                    return Err(e);
                },
            }
            let b = match self.get_current_value() {
                Ok(b) => b,
                Err(e) => {
                    return Err(e);
                },
            };
            if b == 0 {
                break ;
            }
            match self.store(0) {
                Ok(()) => (),
                Err(e) => {
                    return Err(e);
                },
            }
        }
        Ok(())
    }

    /// Reads the cells a numeric type covers and emits its decimal text.
    fn wrt_num<T: Num>(&mut self) -> (r: TapeResult<()>)
        ensures
            ({
                let o = old(self)@.wrt_num_r::<T>();
                final(self)@ == o.tape && match r {
                    Ok(()) => o.err is None,
                    Err(e) => o.err == Some(e@),
                }
            }),
    {
        let w = T::number_of_bytes();
        if w > self.data.len() || self.ptr_index > self.data.len() - w {
            return Err(TapeError::new(
                TapeErrorType::Index,
                read_range_msg(w, self.ptr_index),
            ));
        }
        let mut window: Vec<u8> = Vec::new();
        let mut j: usize = 0;
        while j < w
            invariant
                0 <= j <= w,
                w == T::spec_width(),
                self@ == old(self)@,
                self.ptr_index + w <= self.data@.len(),
                self.data@.len() <= usize::MAX,
                window@ == self.data@.subrange(
                    self.ptr_index as int,
                    self.ptr_index + j as int,
                ),
            decreases w - j,
        {
            window.push(self.data[self.ptr_index + j]);
            proof {
                assert(window@ =~= self.data@.subrange(
                    self.ptr_index as int,
                    self.ptr_index + (j + 1) as int,
                ));
            }
            j += 1;
        }
        proof {
            assert(window@.take(T::spec_width() as int) =~= window@);
        }
        let v = T::from(window);
        let mut t = v.text();
        self.output.append(&mut t);
        proof {
            v.lemma_unsigned_inverse();
        }
        Ok(())
    }

    /// Encodes a numeric value big-endian and writes its bytes into
    /// successive cells.
    fn set_tape_num<T: Num>(&mut self, v: T) -> (r: TapeResult<()>)
        ensures
            ({
                let o = old(self)@.set_num_r::<T>(v);
                final(self)@ == o.tape && match r {
                    Ok(()) => o.err is None,
                    Err(e) => o.err == Some(e@),
                }
            }),
    {
        let bytes = v.get_bytes();
        self.set_bytes(bytes.as_slice())
    }

    /// Writes the value of the current cell as an 8-bit signed integer to the
    /// output buffer.
    pub fn wrti8(&mut self) -> (r: TapeResult<()>)
        ensures
            ({
                let o = old(self)@.wrt_num_r::<i8>();
                final(self)@ == o.tape && match r {
                    Ok(()) => o.err is None,
                    Err(e) => o.err == Some(e@),
                }
            }),
    {
        self.wrt_num::<i8>()
    }

    /// Writes the current cell and the next interpreted as a 16-bit signed
    /// integer to the output buffer.
    pub fn wrti16(&mut self) -> (r: TapeResult<()>)
        ensures
            ({
                let o = old(self)@.wrt_num_r::<i16>();
                final(self)@ == o.tape && match r {
                    Ok(()) => o.err is None,
                    Err(e) => o.err == Some(e@),
                }
            }),
    {
        self.wrt_num::<i16>()
    }

    /// Writes the current cell and the next three interpreted as a 32-bit
    /// signed integer to the output buffer.
    pub fn wrti32(&mut self) -> (r: TapeResult<()>)
        ensures
            ({
                let o = old(self)@.wrt_num_r::<i32>();
                final(self)@ == o.tape && match r {
                    Ok(()) => o.err is None,
                    Err(e) => o.err == Some(e@),
                }
            }),
    {
        self.wrt_num::<i32>()
    }

    /// Writes the current cell and the next seven interpreted as a 64-bit
    /// signed integer to the output buffer.
    pub fn wrti64(&mut self) -> (r: TapeResult<()>)
        ensures
            ({
                let o = old(self)@.wrt_num_r::<i64>();
                final(self)@ == o.tape && match r {
                    Ok(()) => o.err is None,
                    Err(e) => o.err == Some(e@),
                }
            }),
    {
        self.wrt_num::<i64>()
    }

    /// Writes the value of the current cell as an 8-bit unsigned integer to
    /// the output buffer.
    pub fn wrtu8(&mut self) -> (r: TapeResult<()>)
        ensures
            ({
                let o = old(self)@.wrt_num_r::<u8>();
                final(self)@ == o.tape && match r {
                    Ok(()) => o.err is None,
                    Err(e) => o.err == Some(e@),
                }
            }),
    {
        self.wrt_num::<u8>()
    }

    /// Writes the current cell and the next interpreted as a 16-bit unsigned
    /// integer to the output buffer.
    pub fn wrtu16(&mut self) -> (r: TapeResult<()>)
        ensures
            ({
                let o = old(self)@.wrt_num_r::<u16>();
                final(self)@ == o.tape && match r {
                    Ok(()) => o.err is None,
                    Err(e) => o.err == Some(e@),
                }
            }),
    {
        self.wrt_num::<u16>()
    }

    /// Writes the current cell and the next three interpreted as a 32-bit
    /// unsigned integer to the output buffer.
    pub fn wrtu32(&mut self) -> (r: TapeResult<()>)
        ensures
            ({
                let o = old(self)@.wrt_num_r::<u32>();
                final(self)@ == o.tape && match r {
                    Ok(()) => o.err is None,
                    Err(e) => o.err == Some(e@),
                }
            }),
    {
        self.wrt_num::<u32>()
    }

    /// Writes the current cell and the next seven interpreted as a 64-bit
    /// unsigned integer to the output buffer.
    pub fn wrtu64(&mut self) -> (r: TapeResult<()>)
        ensures
            ({
                let o = old(self)@.wrt_num_r::<u64>();
                final(self)@ == o.tape && match r {
                    Ok(()) => o.err is None,
                    Err(e) => o.err == Some(e@),
                }
            }),
    {
        self.wrt_num::<u64>()
    }

    /// The `w` consecutive cells under the pointer, gathered into a vector.
    fn window(&self, w: usize) -> (r: TapeResult<Vec<u8>>)
        ensures
            match r {
                Ok(v) => self@.read_window(w as nat) == Ok::<Seq<u8>, TapeErrorView>(v@),
                Err(e) => self@.read_window(w as nat) == Err::<Seq<u8>, TapeErrorView>(e@),
            },
    {
        if w > self.data.len() || self.ptr_index > self.data.len() - w {
            return Err(TapeError::new(
                TapeErrorType::Index,
                read_range_msg(w, self.ptr_index),
            ));
        }
        let mut win: Vec<u8> = Vec::new();
        let mut j: usize = 0;
        while j < w
            invariant
                0 <= j <= w,
                self.ptr_index + w <= self.data@.len(),
                self.data@.len() <= usize::MAX,
                win@ == self.data@.subrange(self.ptr_index as int, self.ptr_index + j as int),
            decreases w - j,
        {
            win.push(self.data[self.ptr_index + j]);
            proof {
                assert(win@ =~= self.data@.subrange(
                    self.ptr_index as int,
                    self.ptr_index + (j + 1) as int,
                ));
            }
            j += 1;
        }
        Ok(win)
    }

    /// Writes the current cell and the next three interpreted as a 32-bit
    /// floating point number to the output buffer.
    pub fn wrtf32(&mut self) -> (r: TapeResult<()>)
        ensures
            ({
                let o = old(self)@.wrtf32_r();
                final(self)@ == o.tape && match r {
                    Ok(()) => o.err is None,
                    Err(e) => o.err == Some(e@),
                }
            }),
    {
        let win = match self.window(4) {
            Ok(v) => v,
            Err(e) => {
                return Err(e);
            },
        };
        let mut t = crate::float::read_float32_text(&win);
        self.output.append(&mut t);
        Ok(())
    }

    /// Writes the current cell and the next seven interpreted as a 64-bit
    /// floating point number to the output buffer.
    pub fn wrtf64(&mut self) -> (r: TapeResult<()>)
        ensures
            ({
                let o = old(self)@.wrtf64_r();
                final(self)@ == o.tape && match r {
                    Ok(()) => o.err is None,
                    Err(e) => o.err == Some(e@),
                }
            }),
    {
        let win = match self.window(8) {
            Ok(v) => v,
            Err(e) => {
                return Err(e);
            },
        };
        let mut t = crate::float::read_float64_text(&win);
        self.output.append(&mut t);
        Ok(())
    }

    /// Writes the given raw bytes into successive cells, the pointer
    /// advancing once per byte.
    pub fn set_raw(&mut self, bytes: &Vec<u8>) -> (r: TapeResult<()>)
        ensures
            ({
                let o = old(self)@.set_r(bytes@);
                final(self)@ == o.tape && match r {
                    Ok(()) => o.err is None,
                    Err(e) => o.err == Some(e@),
                }
            }),
    {
        self.set_bytes(bytes.as_slice())
    }

    /// Sets the given value as an 8-bit signed integer.
    /// * `v` - The value to set.
    pub fn seti8(&mut self, v: i8) -> (r: TapeResult<()>)
        ensures
            ({
                let o = old(self)@.set_num_r::<i8>(v);
                final(self)@ == o.tape && match r {
                    Ok(()) => o.err is None,
                    Err(e) => o.err == Some(e@),
                }
            }),
    {
        self.set_tape_num(v)
    }

    /// Sets the given value as a 16-bit signed integer.
    /// * `v` - The value to set.
    pub fn seti16(&mut self, v: i16) -> (r: TapeResult<()>)
        ensures
            ({
                let o = old(self)@.set_num_r::<i16>(v);
                final(self)@ == o.tape && match r {
                    Ok(()) => o.err is None,
                    Err(e) => o.err == Some(e@),
                }
            }),
    {
        self.set_tape_num(v)
    }

    /// Sets the given value as a 32-bit signed integer.
    /// * `v` - The value to set.
    pub fn seti32(&mut self, v: i32) -> (r: TapeResult<()>)
        ensures
            ({
                let o = old(self)@.set_num_r::<i32>(v);
                final(self)@ == o.tape && match r {
                    Ok(()) => o.err is None,
                    Err(e) => o.err == Some(e@),
                }
            }),
    {
        self.set_tape_num(v)
    }

    /// Sets the given value as a 64-bit signed integer.
    /// * `v` - The value to set.
    pub fn seti64(&mut self, v: i64) -> (r: TapeResult<()>)
        ensures
            ({
                let o = old(self)@.set_num_r::<i64>(v);
                final(self)@ == o.tape && match r {
                    Ok(()) => o.err is None,
                    Err(e) => o.err == Some(e@),
                }
            }),
    {
        self.set_tape_num(v)
    }

    /// Sets the given value as an 8-bit unsigned integer.
    /// * `v` - The value to set.
    pub fn setu8(&mut self, v: u8) -> (r: TapeResult<()>)
        ensures
            ({
                let o = old(self)@.set_num_r::<u8>(v);
                final(self)@ == o.tape && match r {
                    Ok(()) => o.err is None,
                    Err(e) => o.err == Some(e@),
                }
            }),
    {
        self.set_tape_num(v)
    }

    /// Sets the given value as a 16-bit unsigned integer.
    /// * `v` - The value to set.
    pub fn setu16(&mut self, v: u16) -> (r: TapeResult<()>)
        ensures
            ({
                let o = old(self)@.set_num_r::<u16>(v);
                final(self)@ == o.tape && match r {
                    Ok(()) => o.err is None,
                    Err(e) => o.err == Some(e@),
                }
            }),
    {
        self.set_tape_num(v)
    }

    /// Sets the given value as a 32-bit unsigned integer.
    /// * `v` - The value to set.
    pub fn setu32(&mut self, v: u32) -> (r: TapeResult<()>)
        ensures
            ({
                let o = old(self)@.set_num_r::<u32>(v);
                final(self)@ == o.tape && match r {
                    Ok(()) => o.err is None,
                    Err(e) => o.err == Some(e@),
                }
            }),
    {
        self.set_tape_num(v)
    }

    /// Sets the given value as a 64-bit unsigned integer.
    /// * `v` - The value to set.
    pub fn setu64(&mut self, v: u64) -> (r: TapeResult<()>)
        ensures
            ({
                let o = old(self)@.set_num_r::<u64>(v);
                final(self)@ == o.tape && match r {
                    Ok(()) => o.err is None,
                    Err(e) => o.err == Some(e@),
                }
            }),
    {
        self.set_tape_num(v)
    }
}

// ---------------------------------------------------------------------------
// Laws
// ---------------------------------------------------------------------------

/// Law: moving forward then backward by the same count restores the tape,
/// whenever the forward move itself stays on the tape.
pub proof fn lemma_move_round_trip(t: TapeView, steps: nat)
    requires
        t.pfw_r(steps).err is None,
    ensures
        t.pfw_r(steps).tape.pbw_r(steps).err is None,
        t.pfw_r(steps).tape.pbw_r(steps).tape == t,
{
}

/// Law: incrementing then decrementing the current cell by the same amount
/// restores the tape, whenever the increment does not overflow; the
/// decrement can then never underflow.
pub proof fn lemma_cell_round_trip(t: TapeView, by: u8)
    requires
        t.inc_r(by).err is None,
    ensures
        t.inc_r(by).tape.dec_r(by).err is None,
        t.inc_r(by).tape.dec_r(by).tape == t,
{
    let t2 = t.inc_r(by).tape;
    assert(t2.dec_r(by).tape.data =~= t.data);
}

/// Law: a move that would leave the tape fails with an `Index` error and
/// changes nothing, in either direction.
pub proof fn lemma_failed_move_is_harmless(t: TapeView, steps: nat)
    ensures
        t.pfw_r(steps).err is Some ==> t.pfw_r(steps).tape == t,
        t.pbw_r(steps).err is Some ==> t.pbw_r(steps).tape == t,
        t.pfw_r(steps).err matches Some(e) ==> e.kind == TapeErrorType::Index,
        t.pbw_r(steps).err matches Some(e) ==> e.kind == TapeErrorType::Index,
{
}

/// Law: standing at the start of a run of `k` nonzero cells with a zero
/// cell right after it, `wra` emits exactly that run and leaves the pointer
/// on the zero cell.
pub proof fn lemma_wra_emits_run(t: TapeView, k: nat)
    requires
        t.data.len() <= usize::MAX,
        t.ptr + k < t.data.len(),
        forall|i: int| t.ptr <= i < t.ptr + k ==> t.data[i] != 0,
        t.data[(t.ptr + k) as int] == 0,
    ensures
        t.wra_r().err is None,
        t.wra_r().tape == (TapeView {
            ptr: t.ptr + k,
            output: t.output + t.data.subrange(t.ptr as int, (t.ptr + k) as int),
            ..t
        }),
    decreases k,
{
    if k == 0 {
        assert(t.output + t.data.subrange(t.ptr as int, t.ptr as int) =~= t.output);
    } else {
        let b = t.data[t.ptr as int];
        assert(b != 0);
        let t2 = TapeView { ptr: t.ptr + 1, output: t.output.push(b), ..t };
        assert(forall|i: int| t2.ptr <= i < t2.ptr + (k - 1) ==> t2.data[i] != 0);
        lemma_wra_emits_run(t2, (k - 1) as nat);
        assert(t.output.push(b) + t.data.subrange((t.ptr + 1) as int, (t.ptr + k) as int)
            =~= t.output + t.data.subrange(t.ptr as int, (t.ptr + k) as int));
    }
}

/// The cells of `data` with positions `from ..< to` replaced by zero.
pub open spec fn zeroed_range(data: Seq<u8>, from: int, to: int) -> Seq<u8> {
    Seq::new(data.len(), |i: int| if from <= i < to { 0u8 } else { data[i] })
}

/// The walking part of the `clr` law: after the current cell was zeroed,
/// walking a run of `k - 1` nonzero cells followed by a zero cell zeroes the
/// run and parks the pointer on the previously-zero cell.
proof fn lemma_clr_go_zeroes(t: TapeView, k: nat)
    requires
        t.data.len() <= usize::MAX,
        k >= 1,
        t.ptr + k < t.data.len(),
        forall|i: int| t.ptr < i < t.ptr + k ==> t.data[i] != 0,
        t.data[(t.ptr + k) as int] == 0,
    ensures
        t.clr_go().err is None,
        t.clr_go().tape == (TapeView {
            ptr: t.ptr + k,
            data: zeroed_range(t.data, (t.ptr + 1) as int, (t.ptr + k) as int),
            ..t
        }),
    decreases k,
{
    if k == 1 {
        assert(zeroed_range(t.data, (t.ptr + 1) as int, (t.ptr + 1) as int) =~= t.data);
    } else {
        let b = t.data[(t.ptr + 1) as int];
        assert(b != 0);
        let t2 = TapeView { ptr: t.ptr + 1, data: t.data.update((t.ptr + 1) as int, 0u8), ..t };
        assert(forall|i: int| t2.ptr < i < t2.ptr + (k - 1) ==> t2.data[i] != 0);
        lemma_clr_go_zeroes(t2, (k - 1) as nat);
        assert(zeroed_range(t2.data, (t2.ptr + 1) as int, (t2.ptr + (k - 1)) as int)
            =~= zeroed_range(t.data, (t.ptr + 1) as int, (t.ptr + k) as int));
    }
}

/// Law: standing at the start of a run of `k` cells whose tail `k - 1` cells
/// are nonzero, with a zero cell right after the run, `clr` zeroes all `k`
/// cells and leaves the pointer on the first previously-zero cell.
pub proof fn lemma_clr_zeroes_run(t: TapeView, k: nat)
    requires
        t.data.len() <= usize::MAX,
        k >= 1,
        t.ptr + k < t.data.len(),
        forall|i: int| t.ptr < i < t.ptr + k ==> t.data[i] != 0,
        t.data[(t.ptr + k) as int] == 0,
    ensures
        t.clr_r().err is None,
        t.clr_r().tape == (TapeView {
            ptr: t.ptr + k,
            data: zeroed_range(t.data, t.ptr as int, (t.ptr + k) as int),
            ..t
        }),
{
    let stored = TapeView { data: t.data.update(t.ptr as int, 0u8), ..t };
    assert(forall|i: int| stored.ptr < i < stored.ptr + k ==> stored.data[i] != 0);
    lemma_clr_go_zeroes(stored, k);
    assert(zeroed_range(stored.data, (stored.ptr + 1) as int, (stored.ptr + k) as int)
        =~= zeroed_range(t.data, t.ptr as int, (t.ptr + k) as int));
}

impl Default for Tape {
    /// A tape of the default size, all cells zero.
    fn default() -> (r: Self)
        ensures
            r@ == (TapeView {
                data: Seq::new(crate::DEFAULT_TAPE_SIZE as nat, |i: int| 0u8),
                ptr: 0,
                input: Seq::empty(),
                input_pos: 0,
                output: Seq::empty(),
            }),
    {
        Tape::new(crate::DEFAULT_TAPE_SIZE)
    }
}

} // verus!
