//! Why a registration is refused, with the text that the user is shown.
use vstd::prelude::*;

verus! {

/// A reason to refuse a registration.
#[derive(Clone, Copy, PartialEq, Eq, Structural)]
pub enum RegisterProblem {
    NoUsername,
    NoEmail,
    NoPassword,
    PasswordsDiffer,
    UsernameTaken,
}

/// The text shown for a refused registration.
pub open spec fn problem_text(p: RegisterProblem) -> Seq<char> {
    match p {
        RegisterProblem::NoUsername => "You have to enter a username"@,
        RegisterProblem::NoEmail => "You have to enter a valid email address"@,
        RegisterProblem::NoPassword => "You have to enter a password"@,
        RegisterProblem::PasswordsDiffer => "The two passwords do not match"@,
        RegisterProblem::UsernameTaken => "The username is already taken"@,
    }
}

impl RegisterProblem {
    /// The text shown for this problem.
    pub fn text(&self) -> (r: String)
        ensures
            r@ == problem_text(*self),
    {
        match self {
            RegisterProblem::NoUsername => String::from_str("You have to enter a username"),
            RegisterProblem::NoEmail => String::from_str("You have to enter a valid email address"),
            RegisterProblem::NoPassword => String::from_str("You have to enter a password"),
            RegisterProblem::PasswordsDiffer => String::from_str("The two passwords do not match"),
            RegisterProblem::UsernameTaken => String::from_str("The username is already taken"),
        }
    }
}

/// Whether the text holds an `@`.
pub fn contains_at(s: &str) -> (r: bool)
    ensures
        r == s@.contains('@'),
{
    let ghost text = s@;
    let mut found = false;
    for c in it: s.chars()
        invariant
            it.seq() == text,
            text == s@,
            found == text.take(it.index() as int).contains('@'),
    {
        let ghost i = it.index();
        proof {
            assert(text.take(i + 1) =~= text.take(i as int).push(c));
            let pre = text.take(i as int);
            let post = text.take(i + 1);
            if post.contains('@') && c != '@' {
                let k = choose|k: int| 0 <= k < post.len() && #[trigger] post[k] == '@';
                assert(pre[k] == '@');
            }
            if pre.contains('@') {
                let k = choose|k: int| 0 <= k < pre.len() && #[trigger] pre[k] == '@';
                assert(post[k] == '@');
            }
            if c == '@' {
                assert(text.take(i + 1)[i as int] == '@');
            }
        }
        found = found || c == '@';
    }
    proof {
        assert(text.take(text.len() as int) =~= text);
    }
    found
}

} // verus!
