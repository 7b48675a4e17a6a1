//! The sequence decoder: a byte-stream state machine that turns the raw
//! bytes a child process writes into discrete actions, following the
//! ANSI/VT control-sequence grammar.
//!
//! Bytes may arrive cut at any point, including in the middle of an escape
//! sequence or of a UTF-8 character: the decoder keeps only the minimal
//! accumulator state between calls, and the stream of actions it produces
//! does not depend on where the input was cut (`lemma_run_append`).

use vstd::prelude::*;

verus! {

/// The decoder's control state, one variant per state of the ANSI
/// control-sequence grammar, plus `Utf8` while continuation bytes of a
/// multi-byte character are outstanding.
#[derive(Clone, Copy, Debug)]
pub enum State {
    Ground,
    Escape,
    EscapeIntermediate,
    CsiEntry,
    CsiParam,
    CsiIntermediate,
    CsiIgnore,
    OscString,
    DcsEntry,
    DcsParam,
    DcsIntermediate,
    DcsPassthrough,
    DcsIgnore,
    SosPmApcString,
    Utf8,
}

/// One decoded action, as the terminal state machine consumes it.
#[derive(Clone, PartialEq, Eq, Debug)]
pub enum Action {
    /// One printable character, decoded from UTF-8.
    Print(char),
    /// One C0 control byte to execute immediately.
    Execute(u8),
    /// A parameterized control sequence: parameters, intermediate bytes,
    /// final byte.
    CsiDispatch(Vec<u16>, Vec<u8>, u8),
    /// An escape sequence: intermediate bytes, final byte.
    EscDispatch(Vec<u8>, u8),
    /// An operating-system-command string, split at `;` separators.
    OscDispatch(Vec<Vec<u8>>),
    /// Start of a device-control string: parameters, intermediates, final
    /// byte.
    DcsHook(Vec<u16>, Vec<u8>, u8),
    /// One data byte of a device-control string body.
    DcsPut(u8),
    /// End of a device-control string.
    DcsUnhook,
}

/// The mathematical value of an `Action`.
pub enum ActionV {
    Print(char),
    Execute(u8),
    CsiDispatch(Seq<u16>, Seq<u8>, u8),
    EscDispatch(Seq<u8>, u8),
    OscDispatch(Seq<Seq<u8>>),
    DcsHook(Seq<u16>, Seq<u8>, u8),
    DcsPut(u8),
    DcsUnhook,
}

/// The mathematical value of a list of byte strings.
pub open spec fn bytes_view(v: Seq<Vec<u8>>) -> Seq<Seq<u8>> {
    v.map_values(|x: Vec<u8>| x@)
}

impl View for Action {
    type V = ActionV;

    open spec fn view(&self) -> ActionV {
        match self {
            Action::Print(c) => ActionV::Print(*c),
            Action::Execute(b) => ActionV::Execute(*b),
            Action::CsiDispatch(p, i, f) => ActionV::CsiDispatch(p@, i@, *f),
            Action::EscDispatch(i, f) => ActionV::EscDispatch(i@, *f),
            Action::OscDispatch(p) => ActionV::OscDispatch(bytes_view(p@)),
            Action::DcsHook(p, i, f) => ActionV::DcsHook(p@, i@, *f),
            Action::DcsPut(b) => ActionV::DcsPut(*b),
            Action::DcsUnhook => ActionV::DcsUnhook,
        }
    }
}

/// The sequence of mathematical values of a sequence of actions.
pub open spec fn acts(v: Seq<Action>) -> Seq<ActionV> {
    v.map_values(|a: Action| a@)
}

/// The mathematical value of a `Decoder`.
pub struct DecoderV {
    pub state: State,
    pub params: Seq<u16>,
    pub param: u16,
    pub inters: Seq<u8>,
    pub osc_params: Seq<Seq<u8>>,
    pub osc_buf: Seq<u8>,
    /// Continuation bytes still expected of the current UTF-8 character.
    pub utf8_rem: u32,
    /// Total byte length of the current UTF-8 character (2 to 4).
    pub utf8_len: u32,
    /// Code point accumulated so far.
    pub utf8_cp: u32,
}

/// The decoder: the grammar state plus the accumulators of the sequence
/// being collected. It holds no grid knowledge at all.
pub struct Decoder {
    pub state: State,
    pub params: Vec<u16>,
    pub param: u16,
    pub inters: Vec<u8>,
    pub osc_params: Vec<Vec<u8>>,
    pub osc_buf: Vec<u8>,
    pub utf8_rem: u32,
    pub utf8_len: u32,
    pub utf8_cp: u32,
}

impl View for Decoder {
    type V = DecoderV;

    open spec fn view(&self) -> DecoderV {
        DecoderV {
            state: self.state,
            params: self.params@,
            param: self.param,
            inters: self.inters@,
            osc_params: bytes_view(self.osc_params@),
            osc_buf: self.osc_buf@,
            utf8_rem: self.utf8_rem,
            utf8_len: self.utf8_len,
            utf8_cp: self.utf8_cp,
        }
    }
}

/// A code point that names a character: not a surrogate and within range.
pub open spec fn valid_cp(cp: u32) -> bool {
    (cp < 0xD800 || (0xE000 <= cp && cp <= 0x10FFFF))
}

/// Relies on char::from_u32 of std: it returns Some exactly when the
/// argument is not a surrogate and at most 0x10FFFF, and the character it
/// returns has the argument as its code point.
#[verifier::external_body]
fn char_from_cp(cp: u32) -> (r: char)
    requires
        valid_cp(cp),
    ensures
        r == (cp as char),
{
    match char::from_u32(cp) {
        Some(c) => c,
        None => '\u{FFFD}',
    }
}

/// How many parameters a sequence may carry; further separators are dropped.
pub open spec fn max_params() -> int {
    16
}

/// How many intermediate bytes are kept; further ones are dropped.
pub open spec fn max_inters() -> int {
    2
}

/// A parameter list grows only up to `max_params`.
pub open spec fn pushed_param(ps: Seq<u16>, p: u16) -> Seq<u16> {
    if ps.len() < max_params() {
        ps.push(p)
    } else {
        ps
    }
}

/// An intermediate list grows only up to `max_inters`.
pub open spec fn pushed_inter(is: Seq<u8>, b: u8) -> Seq<u8> {
    if is.len() < max_inters() {
        is.push(b)
    } else {
        is
    }
}

/// An OSC parameter list grows only up to `max_params`.
pub open spec fn pushed_osc(ps: Seq<Seq<u8>>, b: Seq<u8>) -> Seq<Seq<u8>> {
    if ps.len() < max_params() {
        ps.push(b)
    } else {
        ps
    }
}

/// One more decimal digit appended to a parameter, saturating.
pub open spec fn accum_param(p: u16, b: u8) -> u16 {
    if p as int * 10 + (b as int - 0x30) > 65535 {
        65535u16
    } else {
        (p as int * 10 + (b as int - 0x30)) as u16
    }
}

/// The decoder back at `Ground` with every accumulator empty.
pub open spec fn to_ground(d: DecoderV) -> DecoderV {
    DecoderV {
        state: State::Ground,
        params: Seq::empty(),
        param: 0,
        inters: Seq::empty(),
        osc_params: Seq::empty(),
        osc_buf: Seq::empty(),
        utf8_rem: 0,
        ..d
    }
}

/// The decoder entering `Escape` with every accumulator empty.
pub open spec fn to_escape(d: DecoderV) -> DecoderV {
    DecoderV { state: State::Escape, ..to_ground(d) }
}

/// The OSC parameters at dispatch: what was collected plus the open buffer.
pub open spec fn osc_done(d: DecoderV) -> Seq<Seq<u8>> {
    pushed_osc(d.osc_params, d.osc_buf)
}

/// The replacement character written for invalid UTF-8.
pub open spec fn replacement() -> char {
    '\u{FFFD}'
}

/// The smallest code point a UTF-8 sequence of the given length may encode;
/// shorter encodings of the same value are invalid.
pub open spec fn utf8_min(len: u32) -> u32 {
    if len == 2 {
        0x80u32
    } else if len == 3 {
        0x800u32
    } else {
        0x10000u32
    }
}

/// One byte fed to the decoder in any state but `Utf8`: the next decoder
/// value and the actions produced.
pub open spec fn step_raw(d: DecoderV, b: u8) -> (DecoderV, Seq<ActionV>) {
    if b == 0x1B {
        // ESC opens an escape sequence from every state, first closing an
        // open string body.
        match d.state {
            State::OscString => (to_escape(d), seq![ActionV::OscDispatch(osc_done(d))]),
            State::DcsPassthrough => (to_escape(d), seq![ActionV::DcsUnhook]),
            _ => (to_escape(d), Seq::empty()),
        }
    } else if b == 0x18 || b == 0x1A {
        // CAN and SUB abort the sequence in progress.
        (to_ground(d), seq![ActionV::Execute(b)])
    } else if b < 0x20 {
        match d.state {
            State::OscString => {
                if b == 0x07 {
                    (to_ground(d), seq![ActionV::OscDispatch(osc_done(d))])
                } else {
                    (d, Seq::empty())
                }
            },
            State::DcsPassthrough => (d, seq![ActionV::DcsPut(b)]),
            State::SosPmApcString => (d, Seq::empty()),
            _ => (d, seq![ActionV::Execute(b)]),
        }
    } else {
        match d.state {
            State::Ground => {
                if b <= 0x7E {
                    (d, seq![ActionV::Print((b as char))])
                } else if b == 0x7F {
                    (d, Seq::empty())
                } else if 0xC2 <= b && b <= 0xDF {
                    (
                        DecoderV {
                            state: State::Utf8,
                            utf8_rem: 1,
                            utf8_len: 2,
                            utf8_cp: (b & 0x1F) as u32,
                            ..d
                        },
                        Seq::empty(),
                    )
                } else if 0xE0 <= b && b <= 0xEF {
                    (
                        DecoderV {
                            state: State::Utf8,
                            utf8_rem: 2,
                            utf8_len: 3,
                            utf8_cp: (b & 0x0F) as u32,
                            ..d
                        },
                        Seq::empty(),
                    )
                } else if 0xF0 <= b && b <= 0xF4 {
                    (
                        DecoderV {
                            state: State::Utf8,
                            utf8_rem: 3,
                            utf8_len: 4,
                            utf8_cp: (b & 0x07) as u32,
                            ..d
                        },
                        Seq::empty(),
                    )
                } else {
                    (d, seq![ActionV::Print(replacement())])
                }
            },
            State::Escape => {
                if 0x20 <= b && b <= 0x2F {
                    (
                        DecoderV {
                            state: State::EscapeIntermediate,
                            inters: pushed_inter(d.inters, b),
                            ..d
                        },
                        Seq::empty(),
                    )
                } else if b == 0x5B {
                    (DecoderV { state: State::CsiEntry, ..d }, Seq::empty())
                } else if b == 0x5D {
                    (DecoderV { state: State::OscString, ..d }, Seq::empty())
                } else if b == 0x50 {
                    (DecoderV { state: State::DcsEntry, ..d }, Seq::empty())
                } else if b == 0x58 || b == 0x5E || b == 0x5F {
                    (DecoderV { state: State::SosPmApcString, ..d }, Seq::empty())
                } else if b <= 0x7E {
                    (to_ground(d), seq![ActionV::EscDispatch(d.inters, b)])
                } else {
                    (d, Seq::empty())
                }
            },
            State::EscapeIntermediate => {
                if 0x20 <= b && b <= 0x2F {
                    (DecoderV { inters: pushed_inter(d.inters, b), ..d }, Seq::empty())
                } else if b <= 0x7E {
                    (to_ground(d), seq![ActionV::EscDispatch(d.inters, b)])
                } else {
                    (d, Seq::empty())
                }
            },
            State::CsiEntry | State::CsiParam => {
                if 0x30 <= b && b <= 0x39 {
                    (
                        DecoderV { state: State::CsiParam, param: accum_param(d.param, b), ..d },
                        Seq::empty(),
                    )
                } else if b == 0x3B {
                    (
                        DecoderV {
                            state: State::CsiParam,
                            params: pushed_param(d.params, d.param),
                            param: 0,
                            ..d
                        },
                        Seq::empty(),
                    )
                } else if b == 0x3A {
                    (DecoderV { state: State::CsiIgnore, ..d }, Seq::empty())
                } else if 0x3C <= b && b <= 0x3F {
                    if d.state is CsiEntry {
                        (
                            DecoderV {
                                state: State::CsiParam,
                                inters: pushed_inter(d.inters, b),
                                ..d
                            },
                            Seq::empty(),
                        )
                    } else {
                        (DecoderV { state: State::CsiIgnore, ..d }, Seq::empty())
                    }
                } else if 0x20 <= b && b <= 0x2F {
                    (
                        DecoderV {
                            state: State::CsiIntermediate,
                            inters: pushed_inter(d.inters, b),
                            ..d
                        },
                        Seq::empty(),
                    )
                } else if b <= 0x7E {
                    (
                        to_ground(d),
                        seq![
                            ActionV::CsiDispatch(pushed_param(d.params, d.param), d.inters, b)
                        ],
                    )
                } else {
                    (d, Seq::empty())
                }
            },
            State::CsiIntermediate => {
                if 0x20 <= b && b <= 0x2F {
                    (DecoderV { inters: pushed_inter(d.inters, b), ..d }, Seq::empty())
                } else if 0x30 <= b && b <= 0x3F {
                    (DecoderV { state: State::CsiIgnore, ..d }, Seq::empty())
                } else if b <= 0x7E {
                    (
                        to_ground(d),
                        seq![
                            ActionV::CsiDispatch(pushed_param(d.params, d.param), d.inters, b)
                        ],
                    )
                } else {
                    (d, Seq::empty())
                }
            },
            State::CsiIgnore => {
                if 0x40 <= b && b <= 0x7E {
                    (to_ground(d), Seq::empty())
                } else {
                    (d, Seq::empty())
                }
            },
            State::OscString => {
                if b == 0x3B {
                    (
                        DecoderV {
                            osc_params: pushed_osc(d.osc_params, d.osc_buf),
                            osc_buf: Seq::empty(),
                            ..d
                        },
                        Seq::empty(),
                    )
                } else {
                    (DecoderV { osc_buf: d.osc_buf.push(b), ..d }, Seq::empty())
                }
            },
            State::DcsEntry | State::DcsParam => {
                if 0x30 <= b && b <= 0x39 {
                    (
                        DecoderV { state: State::DcsParam, param: accum_param(d.param, b), ..d },
                        Seq::empty(),
                    )
                } else if b == 0x3B {
                    (
                        DecoderV {
                            state: State::DcsParam,
                            params: pushed_param(d.params, d.param),
                            param: 0,
                            ..d
                        },
                        Seq::empty(),
                    )
                } else if b == 0x3A || (0x3C <= b && b <= 0x3F && d.state is DcsParam) {
                    (DecoderV { state: State::DcsIgnore, ..d }, Seq::empty())
                } else if 0x3C <= b && b <= 0x3F {
                    (
                        DecoderV {
                            state: State::DcsParam,
                            inters: pushed_inter(d.inters, b),
                            ..d
                        },
                        Seq::empty(),
                    )
                } else if 0x20 <= b && b <= 0x2F {
                    (
                        DecoderV {
                            state: State::DcsIntermediate,
                            inters: pushed_inter(d.inters, b),
                            ..d
                        },
                        Seq::empty(),
                    )
                } else if b <= 0x7E {
                    (
                        DecoderV { state: State::DcsPassthrough, ..to_ground(d) },
                        seq![ActionV::DcsHook(pushed_param(d.params, d.param), d.inters, b)],
                    )
                } else {
                    (d, Seq::empty())
                }
            },
            State::DcsIntermediate => {
                if 0x20 <= b && b <= 0x2F {
                    (DecoderV { inters: pushed_inter(d.inters, b), ..d }, Seq::empty())
                } else if 0x30 <= b && b <= 0x3F {
                    (DecoderV { state: State::DcsIgnore, ..d }, Seq::empty())
                } else if b <= 0x7E {
                    (
                        DecoderV { state: State::DcsPassthrough, ..to_ground(d) },
                        seq![ActionV::DcsHook(pushed_param(d.params, d.param), d.inters, b)],
                    )
                } else {
                    (d, Seq::empty())
                }
            },
            State::DcsPassthrough => {
                if b == 0x7F {
                    (d, Seq::empty())
                } else {
                    (d, seq![ActionV::DcsPut(b)])
                }
            },
            State::DcsIgnore => (d, Seq::empty()),
            State::SosPmApcString => (d, Seq::empty()),
            State::Utf8 => (d, Seq::empty()),  // unreachable: Utf8 is handled by step
        }
    }
}

/// One byte fed to the decoder: the next decoder value and the actions
/// produced. While continuation bytes of a UTF-8 character are outstanding,
/// a well-formed continuation accumulates; anything else yields the
/// replacement character and the byte is then read over again from
/// `Ground`.
pub open spec fn step(d: DecoderV, b: u8) -> (DecoderV, Seq<ActionV>) {
    if d.state is Utf8 {
        if 0x80 <= b && b <= 0xBF {
            let cp = (d.utf8_cp << 6) | (b & 0x3F) as u32;
            if d.utf8_rem > 1 {
                (
                    DecoderV { utf8_rem: (d.utf8_rem - 1) as u32, utf8_cp: cp, ..d },
                    Seq::empty(),
                )
            } else if cp >= utf8_min(d.utf8_len) && valid_cp(cp) {
                (
                    DecoderV { state: State::Ground, utf8_rem: 0, utf8_cp: cp, ..d },
                    seq![ActionV::Print((cp as char))],
                )
            } else {
                (
                    DecoderV { state: State::Ground, utf8_rem: 0, utf8_cp: cp, ..d },
                    seq![ActionV::Print(replacement())],
                )
            }
        } else {
            let again = step_raw(DecoderV { state: State::Ground, utf8_rem: 0, ..d }, b);
            (again.0, seq![ActionV::Print(replacement())] + again.1)
        }
    } else {
        step_raw(d, b)
    }
}

/// A whole byte string fed to the decoder, one byte at a time.
pub open spec fn run(d: DecoderV, bytes: Seq<u8>) -> (DecoderV, Seq<ActionV>)
    decreases bytes.len(),
{
    if bytes.len() == 0 {
        (d, Seq::empty())
    } else {
        let first = step(d, bytes[0]);
        let rest = run(first.0, bytes.skip(1));
        (rest.0, first.1 + rest.1)
    }
}

/// Feeding a byte string in two pieces leaves the decoder exactly where
/// feeding it whole does, and produces exactly the same actions in the same
/// order.
pub proof fn lemma_run_append(d: DecoderV, a: Seq<u8>, b: Seq<u8>)
    ensures
        run(d, a + b).0 == run(run(d, a).0, b).0,
        run(d, a + b).1 == run(d, a).1 + run(run(d, a).0, b).1,
    decreases a.len(),
{
    if a.len() == 0 {
        assert(a + b =~= b);
        assert(run(d, a).1 + run(run(d, a).0, b).1 =~= run(d, b).1);
    } else {
        let s = step(d, a[0]);
        assert((a + b)[0] == a[0]);
        assert((a + b).skip(1) =~= a.skip(1) + b);
        lemma_run_append(s.0, a.skip(1), b);
        let mid = run(s.0, a.skip(1));
        assert(s.1 + (mid.1 + run(mid.0, b).1) =~= (s.1 + mid.1) + run(mid.0, b).1);
    }
}

/// A list of chunks fed to the decoder one after the other: the final
/// decoder and all actions, in order.
pub open spec fn run_chunks(d: DecoderV, chunks: Seq<Seq<u8>>) -> (DecoderV, Seq<ActionV>)
    decreases chunks.len(),
{
    if chunks.len() == 0 {
        (d, Seq::empty())
    } else {
        let first = run(d, chunks.first());
        let rest = run_chunks(first.0, chunks.drop_first());
        (rest.0, first.1 + rest.1)
    }
}

/// Chunk invariance: however a byte stream is cut into successive read
/// chunks, feeding the chunks one after the other yields the same decoder
/// and the same action sequence as feeding the whole stream at once.
pub proof fn lemma_chunk_invariance(d: DecoderV, chunks: Seq<Seq<u8>>)
    ensures
        run_chunks(d, chunks).0 == run(d, chunks.flatten()).0,
        run_chunks(d, chunks).1 == run(d, chunks.flatten()).1,
    decreases chunks.len(),
{
    if chunks.len() == 0 {
        assert(chunks.flatten() =~= Seq::<u8>::empty());
    } else {
        let first = run(d, chunks.first());
        lemma_chunk_invariance(first.0, chunks.drop_first());
        lemma_run_append(d, chunks.first(), chunks.drop_first().flatten());
        assert(chunks.flatten() == chunks.first() + chunks.drop_first().flatten());
    }
}

/// Mapping a list of actions to values distributes over concatenation.
proof fn lemma_acts_concat(a: Seq<Action>, b: Seq<Action>)
    ensures
        acts(a + b) == acts(a) + acts(b),
{
    assert forall|i: int| 0 <= i < a.len() + b.len() implies acts(a + b)[i] == (acts(a) + acts(
        b,
    ))[i] by {
        if i < a.len() {
            assert((a + b)[i] == a[i]);
        } else {
            assert((a + b)[i] == b[i - a.len()]);
        }
    }
    assert(acts(a + b) =~= acts(a) + acts(b));
}

/// An empty list of actions.
fn acts0() -> (r: Vec<Action>)
    ensures
        acts(r@) == Seq::<ActionV>::empty(),
{
    let r: Vec<Action> = Vec::new();
    proof {
        assert(acts(r@) =~= Seq::<ActionV>::empty());
    }
    r
}

/// One action.
fn acts1(a: Action) -> (r: Vec<Action>)
    ensures
        acts(r@) == seq![a@],
{
    let ghost av = a@;
    let mut r: Vec<Action> = Vec::new();
    r.push(a);
    proof {
        assert(acts(r@) =~= seq![av]);
    }
    r
}

impl Decoder {
    /// The decoder as a session starts: at `Ground`, with nothing
    /// accumulated.
    pub open spec fn initial_spec() -> DecoderV {
        DecoderV {
            state: State::Ground,
            params: Seq::empty(),
            param: 0,
            inters: Seq::empty(),
            osc_params: Seq::empty(),
            osc_buf: Seq::empty(),
            utf8_rem: 0,
            utf8_len: 0,
            utf8_cp: 0,
        }
    }

    pub fn new() -> (d: Decoder)
        ensures
            d@ == Decoder::initial_spec(),
    {
        let d = Decoder {
            state: State::Ground,
            params: Vec::new(),
            param: 0,
            inters: Vec::new(),
            osc_params: Vec::new(),
            osc_buf: Vec::new(),
            utf8_rem: 0,
            utf8_len: 0,
            utf8_cp: 0,
        };
        proof {
            assert(bytes_view(d.osc_params@) =~= Seq::<Seq<u8>>::empty());
        }
        d
    }

    /// Empties every sequence accumulator and moves to the given state.
    fn clear_to(&mut self, s: State)
        ensures
            final(self)@ == (DecoderV { state: s, ..to_ground(old(self)@) }),
    {
        self.state = s;
        self.params.clear();
        self.param = 0;
        self.inters.clear();
        self.osc_params.clear();
        self.osc_buf.clear();
        self.utf8_rem = 0;
        proof {
            assert(bytes_view(self.osc_params@) =~= Seq::<Seq<u8>>::empty());
        }
    }

    /// Pushes an intermediate byte, dropping it when the list is full.
    fn push_inter(&mut self, b: u8)
        ensures
            final(self)@ == (DecoderV { inters: pushed_inter(old(self)@.inters, b), ..old(
                self,
            )@ }),
    {
        if self.inters.len() < 2 {
            self.inters.push(b);
        }
    }

    /// Closes the current parameter, dropping it when the list is full.
    fn push_param(&mut self)
        ensures
            final(self)@ == (DecoderV {
                params: pushed_param(old(self)@.params, old(self)@.param),
                param: 0,
                ..old(self)@
            }),
    {
        if self.params.len() < 16 {
            let p = self.param;
            self.params.push(p);
        }
        self.param = 0;
    }

    /// Appends one decimal digit to the current parameter, saturating.
    fn accum(&mut self, b: u8)
        requires
            0x30 <= b && b <= 0x39,
        ensures
            final(self)@ == (DecoderV { param: accum_param(old(self)@.param, b), ..old(self)@ }),
    {
        let d: u32 = (b - 0x30) as u32;
        let v: u32 = self.param as u32 * 10 + d;
        self.param = if v > 65535 {
            65535
        } else {
            v as u16
        };
    }

    /// The collected parameters plus the current one, for a dispatch; the
    /// decoder's own list is left empty.
    fn done_params(&mut self) -> (r: Vec<u16>)
        ensures
            r@ == pushed_param(old(self)@.params, old(self)@.param),
            final(self)@ == (DecoderV { params: Seq::empty(), ..old(self)@ }),
    {
        let mut r: Vec<u16> = Vec::new();
        core::mem::swap(&mut r, &mut self.params);
        if r.len() < 16 {
            let p = self.param;
            r.push(p);
        }
        r
    }

    /// The collected intermediates, for a dispatch; the decoder's own list
    /// is left empty.
    fn done_inters(&mut self) -> (r: Vec<u8>)
        ensures
            r@ == old(self)@.inters,
            final(self)@ == (DecoderV { inters: Seq::empty(), ..old(self)@ }),
    {
        let mut r: Vec<u8> = Vec::new();
        core::mem::swap(&mut r, &mut self.inters);
        r
    }

    /// Closes the open OSC parameter, dropping it when the list is full.
    fn push_osc(&mut self)
        ensures
            final(self)@ == (DecoderV {
                osc_params: pushed_osc(old(self)@.osc_params, old(self)@.osc_buf),
                osc_buf: Seq::empty(),
                ..old(self)@
            }),
    {
        let mut buf: Vec<u8> = Vec::new();
        core::mem::swap(&mut buf, &mut self.osc_buf);
        if self.osc_params.len() < 16 {
            let ghost before = self.osc_params@;
            let ghost bv = buf@;
            self.osc_params.push(buf);
            proof {
                assert(bytes_view(self.osc_params@) =~= bytes_view(before).push(bv));
            }
        }
    }

    /// The collected OSC parameters plus the open buffer, for a dispatch;
    /// the decoder's own lists are left empty.
    fn done_osc(&mut self) -> (r: Vec<Vec<u8>>)
        ensures
            bytes_view(r@) == osc_done(old(self)@),
            final(self)@ == (DecoderV {
                osc_params: Seq::empty(),
                osc_buf: Seq::empty(),
                ..old(self)@
            }),
    {
        self.push_osc();
        let mut r: Vec<Vec<u8>> = Vec::new();
        core::mem::swap(&mut r, &mut self.osc_params);
        proof {
            assert(bytes_view(self.osc_params@) =~= Seq::<Seq<u8>>::empty());
        }
        r
    }

    /// One byte in any state but `Utf8`.
    fn advance_raw(&mut self, b: u8) -> (out: Vec<Action>)
        requires
            !(old(self)@.state is Utf8),
        ensures
            final(self)@ == step_raw(old(self)@, b).0,
            acts(out@) == step_raw(old(self)@, b).1,
    {
        if b == 0x1B {
            match self.state {
                State::OscString => {
                    let ps = self.done_osc();
                    self.clear_to(State::Escape);
                    acts1(Action::OscDispatch(ps))
                },
                State::DcsPassthrough => {
                    self.clear_to(State::Escape);
                    acts1(Action::DcsUnhook)
                },
                _ => {
                    self.clear_to(State::Escape);
                    acts0()
                },
            }
        } else if b == 0x18 || b == 0x1A {
            self.clear_to(State::Ground);
            acts1(Action::Execute(b))
        } else if b < 0x20 {
            match self.state {
                State::OscString => {
                    if b == 0x07 {
                        let ps = self.done_osc();
                        self.clear_to(State::Ground);
                        acts1(Action::OscDispatch(ps))
                    } else {
                        acts0()
                    }
                },
                State::DcsPassthrough => acts1(Action::DcsPut(b)),
                State::SosPmApcString => acts0(),
                _ => acts1(Action::Execute(b)),
            }
        } else {
            match self.state {
                State::Ground => {
                    if b <= 0x7E {
                        acts1(Action::Print(b as char))
                    } else if b == 0x7F {
                        acts0()
                    } else if 0xC2 <= b && b <= 0xDF {
                        self.state = State::Utf8;
                        self.utf8_rem = 1;
                        self.utf8_len = 2;
                        self.utf8_cp = (b & 0x1F) as u32;
                        acts0()
                    } else if 0xE0 <= b && b <= 0xEF {
                        self.state = State::Utf8;
                        self.utf8_rem = 2;
                        self.utf8_len = 3;
                        self.utf8_cp = (b & 0x0F) as u32;
                        acts0()
                    } else if 0xF0 <= b && b <= 0xF4 {
                        self.state = State::Utf8;
                        self.utf8_rem = 3;
                        self.utf8_len = 4;
                        self.utf8_cp = (b & 0x07) as u32;
                        acts0()
                    } else {
                        acts1(Action::Print('\u{FFFD}'))
                    }
                },
                State::Escape => {
                    if 0x20 <= b && b <= 0x2F {
                        self.state = State::EscapeIntermediate;
                        self.push_inter(b);
                        acts0()
                    } else if b == 0x5B {
                        self.state = State::CsiEntry;
                        acts0()
                    } else if b == 0x5D {
                        self.state = State::OscString;
                        acts0()
                    } else if b == 0x50 {
                        self.state = State::DcsEntry;
                        acts0()
                    } else if b == 0x58 || b == 0x5E || b == 0x5F {
                        self.state = State::SosPmApcString;
                        acts0()
                    } else if b <= 0x7E {
                        let is = self.done_inters();
                        self.clear_to(State::Ground);
                        acts1(Action::EscDispatch(is, b))
                    } else {
                        acts0()
                    }
                },
                State::EscapeIntermediate => {
                    if 0x20 <= b && b <= 0x2F {
                        self.push_inter(b);
                        acts0()
                    } else if b <= 0x7E {
                        let is = self.done_inters();
                        self.clear_to(State::Ground);
                        acts1(Action::EscDispatch(is, b))
                    } else {
                        acts0()
                    }
                },
                State::CsiEntry | State::CsiParam => {
                    if 0x30 <= b && b <= 0x39 {
                        self.state = State::CsiParam;
                        self.accum(b);
                        acts0()
                    } else if b == 0x3B {
                        self.state = State::CsiParam;
                        self.push_param();
                        acts0()
                    } else if b == 0x3A {
                        self.state = State::CsiIgnore;
                        acts0()
                    } else if 0x3C <= b && b <= 0x3F {
                        match self.state {
                            State::CsiEntry => {
                                self.state = State::CsiParam;
                                self.push_inter(b);
                                acts0()
                            },
                            _ => {
                                self.state = State::CsiIgnore;
                                acts0()
                            },
                        }
                    } else if b <= 0x2F {
                        self.state = State::CsiIntermediate;
                        self.push_inter(b);
                        acts0()
                    } else if b <= 0x7E {
                        let ps = self.done_params();
                        let is = self.done_inters();
                        self.clear_to(State::Ground);
                        acts1(Action::CsiDispatch(ps, is, b))
                    } else {
                        acts0()
                    }
                },
                State::CsiIntermediate => {
                    if 0x20 <= b && b <= 0x2F {
                        self.push_inter(b);
                        acts0()
                    } else if b <= 0x3F {
                        self.state = State::CsiIgnore;
                        acts0()
                    } else if b <= 0x7E {
                        let ps = self.done_params();
                        let is = self.done_inters();
                        self.clear_to(State::Ground);
                        acts1(Action::CsiDispatch(ps, is, b))
                    } else {
                        acts0()
                    }
                },
                State::CsiIgnore => {
                    if 0x40 <= b && b <= 0x7E {
                        self.clear_to(State::Ground);
                    }
                    acts0()
                },
                State::OscString => {
                    if b == 0x3B {
                        self.push_osc();
                    } else {
                        self.osc_buf.push(b);
                    }
                    acts0()
                },
                State::DcsEntry | State::DcsParam => {
                    if 0x30 <= b && b <= 0x39 {
                        self.state = State::DcsParam;
                        self.accum(b);
                        acts0()
                    } else if b == 0x3B {
                        self.state = State::DcsParam;
                        self.push_param();
                        acts0()
                    } else if b == 0x3A {
                        self.state = State::DcsIgnore;
                        acts0()
                    } else if 0x3C <= b && b <= 0x3F {
                        match self.state {
                            State::DcsEntry => {
                                self.state = State::DcsParam;
                                self.push_inter(b);
                                acts0()
                            },
                            _ => {
                                self.state = State::DcsIgnore;
                                acts0()
                            },
                        }
                    } else if b <= 0x2F {
                        self.state = State::DcsIntermediate;
                        self.push_inter(b);
                        acts0()
                    } else if b <= 0x7E {
                        let ps = self.done_params();
                        let is = self.done_inters();
                        self.clear_to(State::DcsPassthrough);
                        acts1(Action::DcsHook(ps, is, b))
                    } else {
                        acts0()
                    }
                },
                State::DcsIntermediate => {
                    if 0x20 <= b && b <= 0x2F {
                        self.push_inter(b);
                        acts0()
                    } else if b <= 0x3F {
                        self.state = State::DcsIgnore;
                        acts0()
                    } else if b <= 0x7E {
                        let ps = self.done_params();
                        let is = self.done_inters();
                        self.clear_to(State::DcsPassthrough);
                        acts1(Action::DcsHook(ps, is, b))
                    } else {
                        acts0()
                    }
                },
                State::DcsPassthrough => {
                    if b == 0x7F {
                        acts0()
                    } else {
                        acts1(Action::DcsPut(b))
                    }
                },
                State::DcsIgnore => acts0(),
                State::SosPmApcString => acts0(),
                State::Utf8 => acts0(),
            }
        }
    }

    /// One byte fed to the decoder: the actions it completes. The contract
    /// says exactly that the byte advances the decoder's value by `step`.
    pub fn advance(&mut self, b: u8) -> (out: Vec<Action>)
        ensures
            final(self)@ == step(old(self)@, b).0,
            acts(out@) == step(old(self)@, b).1,
    {
        match self.state {
            State::Utf8 => {
                if 0x80 <= b && b <= 0xBF {
                    let cp: u32 = (self.utf8_cp << 6) | ((b & 0x3F) as u32);
                    self.utf8_cp = cp;
                    if self.utf8_rem > 1 {
                        self.utf8_rem = self.utf8_rem - 1;
                        acts0()
                    } else {
                        self.utf8_rem = 0;
                        self.state = State::Ground;
                        let min: u32 = if self.utf8_len == 2 {
                            0x80
                        } else if self.utf8_len == 3 {
                            0x800
                        } else {
                            0x10000
                        };
                        if cp >= min && (cp < 0xD800 || (0xE000 <= cp && cp <= 0x10FFFF)) {
                            acts1(Action::Print(char_from_cp(cp)))
                        } else {
                            acts1(Action::Print('\u{FFFD}'))
                        }
                    }
                } else {
                    self.state = State::Ground;
                    self.utf8_rem = 0;
                    let mut rest = self.advance_raw(b);
                    let ghost restv = rest@;
                    let mut out = acts1(Action::Print('\u{FFFD}'));
                    let ghost outv = out@;
                    out.append(&mut rest);
                    proof {
                        lemma_acts_concat(outv, restv);
                    }
                    out
                }
            },
            _ => self.advance_raw(b),
        }
    }

    /// A whole chunk of bytes fed to the decoder, in order; the actions of
    /// every byte, concatenated.
    pub fn feed(&mut self, bytes: &[u8]) -> (out: Vec<Action>)
        ensures
            final(self)@ == run(old(self)@, bytes@).0,
            acts(out@) == run(old(self)@, bytes@).1,
    {
        let mut out: Vec<Action> = Vec::new();
        let mut i: usize = 0;
        proof {
            assert(acts(out@) =~= Seq::<ActionV>::empty());
            assert(bytes@.skip(0) =~= bytes@);
            assert(Seq::<ActionV>::empty() + run(self@, bytes@).1 =~= run(self@, bytes@).1);
        }
        while i < bytes.len()
            invariant
                i <= bytes@.len(),
                run(old(self)@, bytes@).0 == run(self@, bytes@.skip(i as int)).0,
                run(old(self)@, bytes@).1 == acts(out@) + run(self@, bytes@.skip(i as int)).1,
            decreases bytes@.len() - i,
        {
            let ghost prev = self@;
            let mut more = self.advance(bytes[i]);
            let ghost outv = out@;
            let ghost morev = more@;
            out.append(&mut more);
            proof {
                lemma_acts_concat(outv, morev);
                assert(bytes@.skip(i as int)[0] == bytes@[i as int]);
                assert(bytes@.skip(i as int).skip(1) =~= bytes@.skip(i as int + 1));
                let s = step(prev, bytes@[i as int]);
                let tail = run(s.0, bytes@.skip(i as int + 1)).1;
                assert(run(prev, bytes@.skip(i as int)).1 == s.1 + tail);
                assert((acts(outv) + s.1) + tail =~= acts(outv) + (s.1 + tail));
            }
            i = i + 1;
        }
        proof {
            assert(bytes@.skip(bytes@.len() as int) =~= Seq::<u8>::empty());
            assert(acts(out@) + Seq::<ActionV>::empty() =~= acts(out@));
        }
        out
    }
}

} // verus!
