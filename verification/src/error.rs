//! Errors as data: a message and the chain of causes behind it.

use vstd::prelude::*;
use crate::text::{decimal, decimal_string};

verus! {

/// A failure with the chain of failures that led to it, outermost first.
#[derive(Debug)]
pub struct Report {
    /// What went wrong, as shown to the user.
    pub message: String,
    /// The messages of the underlying causes, nearest cause first.
    pub causes: Vec<String>,
}

impl View for Report {
    type V = Seq<Seq<char>>;

    /// The whole chain: the message, then each cause.
    open spec fn view(&self) -> Seq<Seq<char>> {
        seq![self.message@] + self.causes.deep_view()
    }
}

impl Report {
    /// A failure without a cause.
    pub fn new(message: &str) -> (report: Report)
        ensures
            report@ == seq![message@],
    {
        let report = Report { message: String::from_str(message), causes: Vec::new() };
        assert(report@ =~= seq![message@]);
        report
    }

    /// Puts `message` in front of the chain: the former message becomes the
    /// nearest cause.
    pub fn wrap_err(self, message: &str) -> (report: Report)
        ensures
            report@ == seq![message@] + self@,
    {
        let Report { message: inner, causes: mut rest } = self;
        let mut causes: Vec<String> = Vec::new();
        causes.push(inner);
        causes.append(&mut rest);
        let report = Report { message: String::from_str(message), causes };
        assert(report@ =~= seq![message@] + self@);
        report
    }

    /// The outermost message alone.
    pub fn to_string(&self) -> (text: String)
        ensures
            text@ == self.message@,
            text@ == self@[0],
    {
        self.message.clone()
    }
}

/// The view of a text that may have failed to come.
pub open spec fn text_view(fetched: Result<String, Report>) -> Result<Seq<char>, Seq<Seq<char>>> {
    match fetched {
        Ok(text) => Ok(text@),
        Err(report) => Err(report@),
    }
}

/// The view of a text that may be absent.
pub open spec fn option_view(text: Option<String>) -> Option<Seq<char>> {
    match text {
        Some(text) => Some(text@),
        None => None,
    }
}

/// The view of a text that may be absent, and may have failed to come.
pub open spec fn optional_text_view(fetched: Result<Option<String>, Report>) -> Result<
    Option<Seq<char>>,
    Seq<Seq<char>>,
> {
    match fetched {
        Ok(Some(text)) => Ok(Some(text@)),
        Ok(None) => Ok(None),
        Err(report) => Err(report@),
    }
}

/// The indentation that opens each line of a rendered error.
pub open spec fn indentation(should_indent: bool) -> Seq<char> {
    if should_indent {
        "    "@
    } else {
        Seq::empty()
    }
}

/// The numbered lines of `causes`, counted from zero, each behind `pad`.
pub open spec fn cause_lines(causes: Seq<Seq<char>>, pad: Seq<char>) -> Seq<char>
    decreases causes.len(),
{
    if causes.len() == 0 {
        Seq::empty()
    } else {
        cause_lines(causes.drop_last(), pad) + pad + "    "@ + decimal((causes.len() - 1) as nat)
            + ": "@ + causes.last() + "\n"@
    }
}

/// The rendering of an error chain: the message on a line of its own, and,
/// where there are causes, a heading and one numbered line for each.
pub open spec fn cause_text(chain: Seq<Seq<char>>, should_indent: bool) -> Seq<char>
    recommends
        chain.len() > 0,
{
    let pad = indentation(should_indent);
    let head = pad + chain[0] + "\n"@;
    if chain.len() > 1 {
        head + pad + "Caused by:\n"@ + cause_lines(chain.subrange(1, chain.len() as int), pad)
    } else {
        head
    }
}

/// Writes the error and its causes.
pub fn cause_string(error: &Report, should_indent: bool) -> (text: String)
    ensures
        text@ == cause_text(error@, should_indent),
{
    let pad = if should_indent {
        "    "
    } else {
        ""
    };
    proof {
        reveal_strlit("");
        assert(pad@ =~= indentation(should_indent));
    }
    let mut f = String::new();
    f.append(pad);
    f.append(error.message.as_str());
    f.append("\n");
    let ghost head = f@;
    let ghost causes = error.causes.deep_view();
    assert(head =~= pad@ + error@[0] + "\n"@);
    assert(error@.subrange(1, error@.len() as int) =~= causes);
    if error.causes.len() > 0 {
        f.append(pad);
        f.append("Caused by:\n");
        let ghost heading = f@;
        let mut i: usize = 0;
        while i < error.causes.len()
            invariant
                i <= error.causes.len(),
                causes == error.causes.deep_view(),
                f@ == heading + cause_lines(causes.subrange(0, i as int), pad@),
            decreases error.causes.len() - i,
        {
            let ghost before = f@;
            f.append(pad);
            f.append("    ");
            let number = decimal_string(i);
            f.append(number.as_str());
            f.append(": ");
            f.append(error.causes[i].as_str());
            f.append("\n");
            proof {
                let done = causes.subrange(0, i + 1);
                assert(done.drop_last() =~= causes.subrange(0, i as int));
                assert(done.last() == error.causes[i as int]@);
                assert(f@ =~= heading + cause_lines(done, pad@));
            }
            i += 1;
        }
        assert(causes.subrange(0, i as int) =~= causes);
        assert(f@ =~= cause_text(error@, should_indent));
    } else {
        assert(f@ =~= cause_text(error@, should_indent));
    }
    f
}

} // verus!
