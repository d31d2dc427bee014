//! The error type every check reports with: a plain human-readable message.

use vstd::prelude::*;

verus! {

/// A failed check, carrying the text that is shown to the operator.
#[derive(Debug)]
pub struct Error {
    pub message: String,
}

/// The messages of `errs`, each followed by a newline, in order.
pub open spec fn joined_messages(errs: Seq<Error>) -> Seq<char>
    decreases errs.len(),
{
    if errs.len() == 0 {
        Seq::empty()
    } else {
        joined_messages(errs.drop_last()) + errs.last().message@ + "\n"@
    }
}

impl Error {
    /// The message as owned text.
    pub fn to_text(&self) -> (r: String)
        ensures
            r@ == self.message@,
    {
        self.message.clone()
    }

    /// Folds several failures into one: each message on its own line,
    /// in the order the failures were collected.
    pub fn combine(errors: Vec<Error>) -> (r: Error)
        ensures
            r.message@ == joined_messages(errors@),
    {
        let mut message = String::new();
        let mut i: usize = 0;
        while i < errors.len()
            invariant
                i <= errors.len(),
                message@ == joined_messages(errors@.take(i as int)),
            decreases errors.len() - i,
        {
            message.append(errors[i].message.as_str());
            message.append("\n");
            proof {
                assert(errors@.take(i + 1).drop_last() =~= errors@.take(i as int));
                assert(errors@.take(i + 1).last() == errors@[i as int]);
            }
            i += 1;
        }
        proof {
            assert(errors@.take(errors@.len() as int) =~= errors@);
        }
        Error { message }
    }
}

impl From<String> for Error {
    fn from(message: String) -> Self {
        Error { message }
    }
}

impl vstd::std_specs::convert::FromSpecImpl<String> for Error {
    open spec fn obeys_from_spec() -> bool {
        true
    }

    open spec fn from_spec(message: String) -> Self {
        Error { message }
    }
}

} // verus!
