//! The inbound edge, on plain values: who may drive terminals, and how a
//! raw chat line splits into a terminal id and a command.

use vstd::prelude::*;

verus! {

use vstd::string::StrSliceExecFns;
use vstd::string::StringExecFns;
use crate::text::find_ch;
use crate::text::lemma_find_ch;
use crate::text::trim;
use crate::text::trim_spaces;

/// Two role lists share at least one role.
pub open spec fn shares_role(allowed: Seq<u64>, roles: Seq<u64>) -> bool {
    exists|i: int, j: int|
        #![trigger allowed[i], roles[j]]
        0 <= i < allowed.len() && 0 <= j < roles.len() && allowed[i] == roles[j]
}

/// The configuration the inbound edge consults before any core call: the
/// authorized role set and the single prefix character that marks a
/// command line.
pub struct Settings {
    pub allowed_roles: Vec<u64>,
    pub prefix: char,
}

impl Settings {
    pub fn new(allowed_roles: Vec<u64>, separator: char) -> (s: Settings)
        ensures
            s.allowed_roles == allowed_roles,
            s.prefix == separator,
    {
        Settings { allowed_roles, prefix: separator }
    }

    /// Whether a requester carrying `member_roles` may drive terminals:
    /// true iff some allowed role is among them.
    pub fn is_authorized(&self, member_roles: &Vec<u64>) -> (r: bool)
        ensures
            r == shares_role(self.allowed_roles@, member_roles@),
    {
        let mut i: usize = 0;
        while i < self.allowed_roles.len()
            invariant
                0 <= i <= self.allowed_roles@.len(),
                forall|ii: int, jj: int|
                    #![trigger self.allowed_roles@[ii], member_roles@[jj]]
                    0 <= ii < i && 0 <= jj < member_roles@.len() ==> self.allowed_roles@[ii]
                        != member_roles@[jj],
            decreases self.allowed_roles@.len() - i,
        {
            let mut j: usize = 0;
            while j < member_roles.len()
                invariant
                    0 <= i < self.allowed_roles@.len(),
                    0 <= j <= member_roles@.len(),
                    forall|jj: int|
                        0 <= jj < j ==> self.allowed_roles@[i as int] != #[trigger] member_roles@[jj],
                decreases member_roles@.len() - j,
            {
                if self.allowed_roles[i] == member_roles[j] {
                    return true;
                }
                j += 1;
            }
            i += 1;
        }
        false
    }
}

/// Splits an inbound chat line `<prefix><id> <command...>` into the
/// terminal id and the trimmed command portion. `None` iff the line is
/// empty or does not start with the prefix. A line with no space after
/// the prefix yields everything past the prefix as the id and an empty
/// command.
pub fn split_inbound(content: &str, prefix: char) -> (r: Option<(String, String)>)
    ensures
        (r is None) == (content@.len() == 0 || content@[0] != prefix),
        content@.len() > 0 && content@[0] == prefix ==> (r matches Some(p) && {
            let rest = content@.drop_first();
            let k = find_ch(rest, ' ');
            if k < 0 {
                p.0@ == rest && p.1@.len() == 0
            } else {
                p.0@ == rest.subrange(0, k) && p.1@ == trim_spaces(
                    rest.subrange(k + 1, rest.len() as int),
                )
            }
        }),
{
    let n = content.unicode_len();
    if n == 0 {
        return None;
    }
    if content.get_char(0) != prefix {
        return None;
    }
    let rest = content.substring_char(1, n);
    proof {
        assert(rest@ =~= content@.drop_first());
        lemma_find_ch(rest@, ' ');
    }
    match crate::text::find_char(rest, ' ') {
        None => Some((String::from_str(rest), String::new())),
        Some(k) => {
            let rn = rest.unicode_len();
            let id = String::from_str(rest.substring_char(0, k));
            let cmd = trim(rest.substring_char(k + 1, rn));
            Some((id, cmd))
        },
    }
}

} // verus!
