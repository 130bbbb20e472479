//! Reading and writing protocol lines: one module per construct, each with
//! its parser and its formatter, and the specification functions that state
//! exactly what both do.

pub mod command;
pub mod go;
pub mod message;
pub mod info;
pub mod movevec;
pub mod optbody;
pub mod score;
pub mod tok;
pub mod tristatus;

use vstd::prelude::*;

use crate::msg::{Command, Message};
use crate::token::{spec_join, PushTokens};

verus! {

/// The line ended where a construct still needed a token.
#[derive(Debug, Clone, PartialEq, Eq)]
pub struct EolError;

/// A value with a canonical line encoding: it formats as the token sequence
/// `fmt_toks()`, and `fmt_line` is those tokens joined by single spaces.
pub trait Fmt {
    /// The tokens the value writes.
    spec fn fmt_toks(&self) -> Seq<Seq<char>>;

    /// Appends the value's tokens to an output buffer.
    fn fmt<P: PushTokens>(&self, f: &mut P)
        ensures
            final(f).toks() == old(f).toks() + self.fmt_toks(),
    ;

    /// The value's canonical line, without a newline.
    fn fmt_line(&self) -> (r: String)
        ensures
            r@ == spec_join(self.fmt_toks()),
    ;
}

impl Fmt for Command {
    open spec fn fmt_toks(&self) -> Seq<Seq<char>> {
        command::spec_fmt_toks(self@)
    }

    fn fmt<P: PushTokens>(&self, f: &mut P) {
        command::fmt(self, f);
    }

    fn fmt_line(&self) -> (r: String) {
        command::fmt_line(self)
    }
}

impl Fmt for Message {
    open spec fn fmt_toks(&self) -> Seq<Seq<char>> {
        message::spec_fmt_toks(self@)
    }

    fn fmt<P: PushTokens>(&self, f: &mut P) {
        message::fmt(self, f);
    }

    fn fmt_line(&self) -> (r: String) {
        message::fmt_line(self)
    }
}

} // verus!
