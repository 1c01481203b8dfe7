//! A small reading of optional configuration words as booleans.

use vstd::prelude::*;
use vstd::string::StrSliceExecFns;

verus! {

/// Whether an optional configuration word spells an affirmative answer.
pub open spec fn spec_may_true(w: Option<Seq<char>>) -> bool {
    match w {
        None => false,
        Some(s) => s.len() > 0 && (s[0] == 'y' || s[0] == 'Y' || s[0] == 't' || s[0] == 'T'
            || s[0] == '1'),
    }
}

/// Boolean extension: read a value as an affirmative/negative switch.
pub trait BoolExt {
    /// The switch this value stands for, as a specification.
    spec fn spec_switch(&self) -> bool;

    /// True when the value plainly spells an affirmative word.
    fn may_true(&self) -> (r: bool)
        ensures
            r == self.spec_switch(),
    ;
}

impl BoolExt for Option<String> {
    open spec fn spec_switch(&self) -> bool {
        spec_may_true(match *self {
            Some(s) => Some(s@),
            None => None,
        })
    }

    fn may_true(&self) -> (r: bool) {
        match self {
            None => false,
            Some(s) => {
                if s.as_str().is_empty() {
                    false
                } else {
                    let c = s.as_str().get_char(0);
                    c == 'y' || c == 'Y' || c == 't' || c == 'T' || c == '1'
                }
            },
        }
    }
}

} // verus!
