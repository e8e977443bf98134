//! How a failure is told to the user.

use vstd::prelude::*;

verus! {

/// The causes of a failure, each on a line of its own.
pub open spec fn cause_lines(causes: Seq<String>) -> Seq<char>
    decreases causes.len(),
{
    if causes.len() == 0 {
        Seq::empty()
    } else {
        cause_lines(causes.drop_last()) + "\n -> "@ + causes.last()@
    }
}

/// What is told of a failure: its message, and then its causes.
pub open spec fn error_text(message: Seq<char>, causes: Seq<String>) -> Seq<char> {
    "Error occurred: "@ + message + cause_lines(causes)
}

/// The text for a failure with `message` and its `causes`, the nearest first.
pub fn format_error(message: &str, causes: &Vec<String>) -> (r: String)
    ensures
        r@ == error_text(message@, causes@),
{
    let mut out = "Error occurred: ".to_owned();
    out.append(message);
    let ghost head = out@;
    let mut i: usize = 0;
    proof {
        assert(causes@.take(0) =~= Seq::<String>::empty());
        assert(out@ =~= head + cause_lines(causes@.take(0)));
    }
    while i < causes.len()
        invariant
            i <= causes@.len(),
            out@ == head + cause_lines(causes@.take(i as int)),
        decreases causes@.len() - i,
    {
        out.append("\n -> ");
        out.append(causes[i].as_str());
        proof {
            let longer = causes@.take(i + 1);
            assert(longer.drop_last() =~= causes@.take(i as int));
            assert(longer.last() == causes@[i as int]);
            assert(out@ =~= head + cause_lines(longer));
        }
        i = i + 1;
    }
    assert(causes@.take(i as int) =~= causes@);
    out
}

} // verus!
