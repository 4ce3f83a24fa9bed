//! APDU dispatch: route an incoming command to the first registered
//! handler whose rule accepts it.

use vstd::prelude::*;
use crate::apdu_errors::ApduError;
use crate::pic::PIC;
use crate::wrapper::ApduBufferRead;

verus! {

/// Trait defining an APDU handler.
///
/// Implementors live in the application; `flags` signals UI-driven
/// asynchronous completion back to the event loop, and the return tells
/// how many bytes of output were written, or an error code.
pub trait ApduHandler {
    /// Entrypoint of the handler.
    fn handle(flags: &mut u32, apdu_buffer: ApduBufferRead) -> (r: Result<u32, ApduError>);
}

/// How a handler is selected.
#[derive(Clone, Copy, PartialEq, Eq, Structural, Debug)]
pub enum HandlerRule {
    /// Selected when the envelope's instruction byte matches.
    Instruction(u8),
    /// Always selected.
    Always,
}

impl HandlerRule {
    /// Whether this rule accepts the instruction byte `ins`.
    pub open spec fn spec_matches(self, ins: u8) -> bool {
        match self {
            HandlerRule::Instruction(h) => h == ins,
            HandlerRule::Always => true,
        }
    }

    /// Test this rule against an instruction byte.
    pub fn matches_ins(&self, ins: u8) -> (r: bool)
        ensures
            r == self.spec_matches(ins),
    {
        match self {
            HandlerRule::Instruction(h) => *h == ins,
            HandlerRule::Always => true,
        }
    }
}

/// A registered handler: its selection rule and its entry function,
/// which takes the command buffer and returns the outcome together with
/// the UI flags to report.
pub struct Handler<F> {
    rule: HandlerRule,
    handler: PIC<F>,
}

impl<F: Fn(ApduBufferRead) -> (Result<u32, ApduError>, u32)> Handler<F> {
    /// This handler's selection rule.
    pub closed spec fn spec_rule(self) -> HandlerRule {
        self.rule
    }

    /// This handler's entry function.
    pub closed spec fn spec_handler(self) -> F {
        self.handler.spec_value()
    }

    /// Create a new handler.
    pub fn new(rule: HandlerRule, f: F) -> (r: Self)
        ensures
            r.spec_rule() == rule,
            r.spec_handler() == f,
    {
        Handler { rule, handler: PIC::new(f) }
    }

    /// Shorthand for a handler bound to one instruction code.
    pub fn simple_handler(ins: u8, f: F) -> (r: Self)
        ensures
            r.spec_rule() == HandlerRule::Instruction(ins),
            r.spec_handler() == f,
    {
        Self::new(HandlerRule::Instruction(ins), f)
    }

    /// This handler's entry function.
    fn handler(&self) -> (r: &F)
        ensures
            r == self.spec_handler(),
    {
        self.handler.get_ref()
    }
}

/// Index of the first rule in registration order accepting `ins`.
pub open spec fn spec_selected(rules: Seq<HandlerRule>, ins: u8) -> Option<int>
    decreases rules.len(),
{
    if rules.len() == 0 {
        None
    } else if rules.first().spec_matches(ins) {
        Some(0)
    } else {
        match spec_selected(rules.drop_first(), ins) {
            Some(j) => Some(j + 1),
            None => None,
        }
    }
}

/// Dispatch the APDU to the first of `handlers` whose rule accepts the
/// instruction byte; earlier handlers take precedence.
///
/// The flags are cleared first; a command with the wrong class byte is
/// rejected with `ClaNotSupported`, one no handler accepts with
/// `CommandNotAllowed`. Otherwise the selected handler decides both the
/// result and the flags.
pub fn apdu_dispatch<const CLA: u8, F: Fn(ApduBufferRead) -> (Result<u32, ApduError>, u32)>(
    flags: &mut u32,
    apdu_buffer: ApduBufferRead,
    handlers: &Vec<Handler<F>>,
) -> (r: Result<u32, ApduError>)
    requires
        forall|i: int, buf: ApduBufferRead|
            0 <= i < handlers@.len() ==> #[trigger] call_requires(
                handlers@[i].spec_handler(),
                (buf,),
            ),
    ensures
        ({
            let rules = handlers@.map_values(|h: Handler<F>| h.spec_rule());
            let sel = spec_selected(rules, apdu_buffer@[1]);
            if apdu_buffer@[0] != CLA {
                r == Err::<u32, _>(ApduError::ClaNotSupported) && *final(flags) == 0
            } else {
                match sel {
                    None => r == Err::<u32, _>(ApduError::CommandNotAllowed) && *final(flags)
                        == 0,
                    Some(i) => call_ensures(
                        handlers@[i].spec_handler(),
                        (apdu_buffer,),
                        (r, *final(flags)),
                    ),
                }
            }
        }),
{
    *flags = 0;

    if apdu_buffer.cla() != CLA {
        return Err(ApduError::ClaNotSupported);
    }

    let ins = apdu_buffer.ins();
    let ghost rules = handlers@.map_values(|h: Handler<F>| h.spec_rule());

    let n = handlers.len();
    let mut i: usize = 0;
    while i < n
        invariant
            i <= n,
            n == handlers@.len(),
            *flags == 0,
            ins == apdu_buffer@[1],
            apdu_buffer@[0] == CLA,
            rules == handlers@.map_values(|h: Handler<F>| h.spec_rule()),
            forall|i0: int, buf: ApduBufferRead|
                0 <= i0 < handlers@.len() ==> #[trigger] call_requires(
                    handlers@[i0].spec_handler(),
                    (buf,),
                ),
            forall|j: int| 0 <= j < i ==> !rules[j].spec_matches(ins),
        decreases n - i,
    {
        let hndl = &handlers[i];
        if hndl.rule.matches_ins(ins) {
            proof {
                lemma_selected_first(rules, ins, i as int);
            }
            let f = hndl.handler();
            let (res, fl) = f(apdu_buffer);
            *flags = fl;
            return res;
        }
        i += 1;
    }
    proof {
        lemma_selected_none(rules, ins);
    }
    Err(ApduError::CommandNotAllowed)
}

/// If every rule before `i` rejects and rule `i` accepts, `i` is the
/// selected index.
proof fn lemma_selected_first(rules: Seq<HandlerRule>, ins: u8, i: int)
    requires
        0 <= i < rules.len(),
        rules[i].spec_matches(ins),
        forall|j: int| 0 <= j < i ==> !rules[j].spec_matches(ins),
    ensures
        spec_selected(rules, ins) == Some(i),
    decreases rules.len(),
{
    if i == 0 {
    } else {
        lemma_selected_first(rules.drop_first(), ins, i - 1);
    }
}

/// If every rule rejects, nothing is selected.
proof fn lemma_selected_none(rules: Seq<HandlerRule>, ins: u8)
    requires
        forall|j: int| 0 <= j < rules.len() ==> !rules[j].spec_matches(ins),
    ensures
        spec_selected(rules, ins) is None,
    decreases rules.len(),
{
    if rules.len() > 0 {
        lemma_selected_none(rules.drop_first(), ins);
    }
}

} // verus!
