use vstd::prelude::*;
use vstd::string::StringSliceAdditionalSpecFns;
use crate::http::find_byte;

verus! {

/// The first-run configuration dialogue; its prompts live with the program,
/// its checks here.
pub struct ConfigWizard;

/// A plausible address: an `@` that is neither first nor last, then a `.`
/// after it that neither follows the `@` directly nor ends the text.
pub open spec fn spec_email_format(b: Seq<u8>) -> bool {
    let n = b.len() as int;
    let at = find_byte(b, 64, 0, n);
    let dot = find_byte(b, 46, at + 1, n);
    &&& at < n
    &&& at != 0
    &&& at != n - 1
    &&& dot < n
    &&& dot != at + 1
    &&& dot != n - 1
}

fn first_index(b: &[u8], c: u8, i: usize) -> (r: usize)
    requires
        i <= b@.len(),
    ensures
        r == find_byte(b@, c, i as int, b@.len() as int),
        i <= r <= b@.len(),
{
    let mut j = i;
    while j < b.len()
        invariant
            i <= j <= b@.len(),
            find_byte(b@, c, i as int, b@.len() as int) == find_byte(b@, c, j as int, b@.len() as int),
        decreases b@.len() - j,
    {
        if b[j] == c {
            return j;
        }
        j = j + 1;
    }
    j
}

impl ConfigWizard {
    pub fn is_valid_email_format(email: &str) -> (r: bool)
        ensures
            r == spec_email_format(email.spec_bytes()),
    {
        let b = email.as_bytes();
        let n = b.len();
        let at = first_index(b, 64, 0);
        if at == n || at == 0 || at == n - 1 {
            return false;
        }
        let dot = first_index(b, 46, at + 1);
        if dot == n {
            return false;
        }
        !(dot == at + 1 || dot == n - 1)
    }
}

} // verus!
