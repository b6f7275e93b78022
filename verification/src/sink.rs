//! The downstream consumer of decoded text.

use vstd::prelude::*;
use vstd::string::StringExecFns;

verus! {

/// The view of a sequence of owned strings as a sequence of character
/// sequences.
pub open spec fn views_of(v: Seq<String>) -> Seq<Seq<char>> {
    v.map_values(|m: String| m@)
}

/// A downstream consumer of decoded text: it takes text chunks and diagnostic
/// messages incrementally, and can be finalized into a result of its own
/// choosing. The byte stream state machine is generic over this interface;
/// its contracts speak of the text and the diagnostics the sink has received.
pub trait TextSink: Sized {
    /// What finalizing the sink yields.
    type Output;

    /// The text the sink has received so far, in order.
    spec fn received(&self) -> Seq<char>;

    /// The diagnostic messages the sink has received so far, in order.
    spec fn reported(&self) -> Seq<Seq<char>>;

    /// Which final results are valid for a sink that has received exactly
    /// `received` and `reported` when it is finalized.
    spec fn result_ok(received: Seq<char>, reported: Seq<Seq<char>>, out: &Self::Output) -> bool;

    /// Take one more chunk of decoded text.
    fn process(&mut self, t: &str)
        ensures
            final(self).received() == old(self).received() + t@,
            final(self).reported() == old(self).reported(),
    ;

    /// Take one more diagnostic message.
    fn error(&mut self, desc: &str)
        ensures
            final(self).received() == old(self).received(),
            final(self).reported() == old(self).reported().push(desc@),
    ;

    /// Signal end of input and yield the accumulated result.
    fn finish(self) -> (r: Self::Output)
        ensures
            Self::result_ok(self.received(), self.reported(), &r),
    ;
}

/// A sink that simply accumulates the text and the diagnostics it is given.
pub struct StringSink {
    /// All text received, concatenated in arrival order.
    pub text: String,
    /// All diagnostic messages received, in arrival order.
    pub errors: Vec<String>,
}

impl StringSink {
    /// A sink that has received nothing yet.
    pub fn new() -> (r: StringSink)
        ensures
            r.text@ == Seq::<char>::empty(),
            r.errors@ == Seq::<String>::empty(),
    {
        StringSink { text: String::new(), errors: Vec::new() }
    }
}

impl TextSink for StringSink {
    type Output = StringSink;

    open spec fn received(&self) -> Seq<char> {
        self.text@
    }

    open spec fn reported(&self) -> Seq<Seq<char>> {
        views_of(self.errors@)
    }

    open spec fn result_ok(received: Seq<char>, reported: Seq<Seq<char>>, out: &StringSink) -> bool {
        out.text@ == received && views_of(out.errors@) == reported
    }

    fn process(&mut self, t: &str) {
        self.text.append(t);
    }

    fn error(&mut self, desc: &str) {
        let owned = String::from_str(desc);
        self.errors.push(owned);
        proof {
            assert(views_of(self.errors@) =~= views_of(old(self).errors@).push(desc@));
        }
    }

    fn finish(self) -> (r: StringSink) {
        self
    }
}

} // verus!
