//! The event sink's formatting rules: fitting a snapshot into the
//! transport's length budget and fencing it for display.

use vstd::prelude::*;

verus! {

use vstd::string::StrSliceExecFns;
use vstd::string::StringExecFns;
use crate::text::find_ch;
use crate::text::lemma_find_ch;

/// The transport's hard limit on one rendered message.
pub const LENGTH_LIMIT: usize = 2000;

/// What remains of the limit for the snapshot itself once fencing is
/// accounted for.
pub const FRAME_BUDGET: usize = LENGTH_LIMIT - 10;

/// A frame over budget loses whole lines from the front, one at a time,
/// until it fits, preserving the most recent output. A single line that
/// alone exceeds the budget stays as it is.
pub open spec fn trimmed_frame(s: Seq<char>, budget: int) -> Seq<char>
    decreases s.len(),
{
    if s.len() <= budget {
        s
    } else {
        let k = find_ch(s, '\n');
        if !(0 <= k < s.len()) {
            s
        } else {
            trimmed_frame(s.subrange(k + 1, s.len() as int), budget)
        }
    }
}

/// Law: a trimmed frame either fits the budget, or consists of one single
/// line with no newline left to drop.
pub proof fn lemma_trimmed_fits(s: Seq<char>, budget: int)
    ensures
        trimmed_frame(s, budget).len() <= budget || find_ch(trimmed_frame(s, budget), '\n')
            == -1,
    decreases s.len(),
{
    if s.len() <= budget {
    } else {
        lemma_find_ch(s, '\n');
        let k = find_ch(s, '\n');
        if 0 <= k < s.len() {
            lemma_trimmed_fits(s.subrange(k + 1, s.len() as int), budget);
        }
    }
}

/// Drops whole lines from the front of `frame` until it fits `budget`.
pub fn fit_frame(frame: &str, budget: usize) -> (r: String)
    ensures
        r@ == trimmed_frame(frame@, budget as int),
{
    let mut cur: String = String::from_str(frame);
    loop
        invariant
            trimmed_frame(cur@, budget as int) == trimmed_frame(frame@, budget as int),
        decreases cur@.len(),
    {
        let n = cur.as_str().unicode_len();
        if n <= budget {
            return cur;
        }
        proof {
            lemma_find_ch(cur@, '\n');
        }
        match crate::text::find_char(cur.as_str(), '\n') {
            None => {
                return cur;
            },
            Some(k) => {
                let rest = cur.as_str().substring_char(k + 1, n);
                cur = String::from_str(rest);
            },
        }
    }
}

/// Wraps a snapshot in the fenced block the renderer displays.
pub fn render_terminal_layout(contents: &str) -> (r: String)
    ensures
        r@ == "```\n"@ + contents@ + "```"@,
{
    let mut r = String::from_str("```\n");
    r.append(contents);
    r.append("```");
    r
}

/// The sink's handling of one `Update` snapshot: trim whole lines from
/// the front until the transport budget is met, then fence the result.
/// The window itself is never touched.
pub fn prepare_update(snapshot: String) -> (r: String)
    ensures
        r@ == "```\n"@ + trimmed_frame(snapshot@, FRAME_BUDGET as int) + "```"@,
{
    let fitted = fit_frame(snapshot.as_str(), FRAME_BUDGET);
    render_terminal_layout(fitted.as_str())
}

} // verus!
