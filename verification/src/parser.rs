//! The inbound command grammar: `new [height=N] [private]`, `remove`,
//! `run <code>`, or a backtick-delimited code literal.

use vstd::prelude::*;

verus! {

broadcast use vstd::string::group_string_axioms;

use vstd::string::StrSliceExecFns;
use vstd::string::StringExecFns;
use crate::text::all_digits;
use crate::text::digits_val;
use crate::text::find_ch;
use crate::text::has_prefix;
use crate::text::lemma_find_ch;
use crate::text::lemma_split_words_len;
use crate::text::line_views;
use crate::text::split_words;
use crate::text::split_ws;
use crate::text::starts_with;
use crate::text::trim;
use crate::text::trim_spaces;
use crate::text::eq_str;
use crate::text::find_char;

/// The largest window height a `new` command may ask for.
pub const HEIGHT_LIMIT: usize = 1000;

/// The window height used when a `new` command names none.
pub const DEFAULT_HEIGHT: usize = 20;

/// A syntactically valid parsed user command.
#[derive(Debug)]
pub enum Command {
    New { height: usize, private: bool },
    Remove,
    Run(String),
}

/// A structured parse failure, surfaced to the requester.
#[derive(Debug)]
pub enum Error {
    NoAction,
    UnrecognizedCommand(String),
    MissingArgument(String),
    HeightToLarge(usize),
    InvalidNumber,
    MissingEndToCodeBlock,
}

impl Error {
    /// The short user-facing text for this failure; diagnostic detail
    /// beyond the offending input never appears in it.
    pub fn describe(&self) -> (r: String)
        ensures
            ({
                let limit_text = "height limit is 1000 but you tried to set it to "@;
                match self {
                    Error::NoAction => r@ == "no command was supplied"@,
                    Error::UnrecognizedCommand(f) => r@ == f@ + " is not a valid command"@,
                    Error::MissingArgument(m) => r@ == "missing required argument '"@ + m@
                        + "'"@,
                    Error::HeightToLarge(h) => {
                        &&& r@.len() > limit_text.len()
                        &&& r@.subrange(0, limit_text.len() as int) == limit_text
                        &&& all_digits(r@.subrange(limit_text.len() as int, r@.len() as int))
                        &&& digits_val(r@.subrange(limit_text.len() as int, r@.len() as int))
                            == *h as int
                    },
                    Error::InvalidNumber => r@ == "not a valid number"@,
                    Error::MissingEndToCodeBlock => r@ == "missing end to code block"@,
                }
            }),
    {
        match self {
            Error::NoAction => String::from_str("no command was supplied"),
            Error::UnrecognizedCommand(f) => {
                let mut r = f.clone();
                r.append(" is not a valid command");
                r
            },
            Error::MissingArgument(m) => {
                let mut r = String::from_str("missing required argument '");
                r.append(m.as_str());
                r.append("'");
                r
            },
            Error::HeightToLarge(h) => {
                let mut r = String::from_str("height limit is 1000 but you tried to set it to ");
                let digits = crate::text::to_decimal(*h);
                let ghost pre = r@;
                r.append(digits.as_str());
                proof {
                    assert(r@.subrange(0, pre.len() as int) =~= pre);
                    assert(r@.subrange(pre.len() as int, r@.len() as int) =~= digits@);
                }
                r
            },
            Error::InvalidNumber => String::from_str("not a valid number"),
            Error::MissingEndToCodeBlock => String::from_str("missing end to code block"),
        }
    }
}

/// Outcome of folding the words that follow a `new` header: the settled
/// height and privacy flag, or the first failure met.
pub enum NewParse {
    Settled { height: int, private: bool },
    MissingHeightArg,
    BadHeightNumber,
}

/// Folds the words after a `new` header, left to right. A word starting
/// with `height` re-sets the height from the digits past its seventh
/// character; the word `private` sets the privacy flag; other words are
/// ignored.
pub open spec fn parse_new_words(ws: Seq<Seq<char>>, height: int, private: bool) -> NewParse
    decreases ws.len(),
{
    if ws.len() == 0 {
        NewParse::Settled { height, private }
    } else {
        let w = ws[0];
        if has_prefix(w, "height"@) {
            if w.len() < 7 {
                NewParse::MissingHeightArg
            } else {
                let digits = w.subrange(7, w.len() as int);
                if digits.len() > 0 && all_digits(digits) && digits_val(digits) <= usize::MAX {
                    parse_new_words(ws.drop_first(), digits_val(digits), private)
                } else {
                    NewParse::BadHeightNumber
                }
            }
        } else {
            parse_new_words(ws.drop_first(), height, private || w == "private"@)
        }
    }
}

/// What a correct result of parsing the words after a `new` header looks
/// like: the settled height bounded by `HEIGHT_LIMIT`, or the matching
/// error.
pub open spec fn new_parses_to(ws: Seq<Seq<char>>, r: Result<Command, Error>) -> bool {
    match parse_new_words(ws, DEFAULT_HEIGHT as int, false) {
        NewParse::Settled { height, private } => if height > HEIGHT_LIMIT as int {
            r matches Err(Error::HeightToLarge(h)) && h as int == height
        } else {
            (r matches Ok(Command::New { height: rh, private: rp }) && rh as int == height && rp
                == private)
        },
        NewParse::MissingHeightArg => (r matches Err(Error::MissingArgument(m)) && m@
            == "int after 'height'"@),
        NewParse::BadHeightNumber => r matches Err(Error::InvalidNumber),
    }
}

/// What a correct result of parsing `s` looks like, over the whole grammar.
pub open spec fn parses_to(s: Seq<char>, r: Result<Command, Error>) -> bool {
    if s.len() == 0 {
        r matches Err(Error::NoAction)
    } else if s[0] == '`' {
        let rest = s.drop_first();
        let k = find_ch(rest, '`');
        if k < 0 {
            r matches Err(Error::MissingEndToCodeBlock)
        } else {
            r matches Ok(Command::Run(code)) && code@ == rest.subrange(0, k)
        }
    } else {
        let header = split_words(s)[0];
        if header == "new"@ {
            new_parses_to(split_words(s).drop_first(), r)
        } else if header == "remove"@ {
            r matches Ok(Command::Remove)
        } else if header == "run"@ {
            if s.len() == 3 {
                r matches Err(Error::MissingArgument(m)) && m@ == "code after 'run'"@
            } else {
                r matches Ok(Command::Run(code)) && code@ == trim_spaces(
                    s.subrange(4, s.len() as int),
                )
            }
        } else {
            r matches Err(Error::UnrecognizedCommand(w)) && w@ == header
        }
    }
}

/// Attempts to parse `raw` to a command.
pub fn parse(raw: &str) -> (r: Result<Command, Error>)
    ensures
        parses_to(raw@, r),
{
    let n = raw.unicode_len();
    if n == 0 {
        return Err(Error::NoAction);
    }
    if raw.get_char(0) == '`' {
        let rest = raw.substring_char(1, n);
        proof {
            assert(rest@ =~= raw@.drop_first());
        }
        match find_char(rest, '`') {
            None => Err(Error::MissingEndToCodeBlock),
            Some(k) => {
                let code = rest.substring_char(0, k);
                Ok(Command::Run(String::from_str(code)))
            },
        }
    } else {
        let words = split_ws(raw);
        proof {
            lemma_split_words_len(raw@);
            assert(words@[0]@ == split_words(raw@)[0]);
        }
        let header = &words[0];
        if eq_str(header.as_str(), "new") {
            parse_new(&words)
        } else if eq_str(header.as_str(), "remove") {
            Ok(Command::Remove)
        } else if eq_str(header.as_str(), "run") {
            if n == 3 {
                Err(Error::MissingArgument(String::from_str("code after 'run'")))
            } else {
                proof {
                    lemma_run_header_space(raw@);
                }
                let payload = trim(raw.substring_char(4, n));
                Ok(Command::Run(payload))
            }
        } else {
            Err(Error::UnrecognizedCommand(header.clone()))
        }
    }
}

/// When the first word of `s` is `run` and `s` is longer, a space follows
/// it, so the payload begins at index 4.
proof fn lemma_run_header_space(s: Seq<char>)
    requires
        s.len() > 0,
        split_words(s)[0] == "run"@,
        s.len() != 3,
    ensures
        s.len() >= 4,
{
    lemma_find_ch(s, ' ');
    let k = find_ch(s, ' ');
    reveal_strlit("run");
    if !(0 <= k < s.len()) {
        assert(split_words(s)[0] == s);
        assert(s.len() == 3);
    } else {
        assert(split_words(s) == seq![s.subrange(0, k)] + split_words(
            s.subrange(k + 1, s.len() as int),
        ));
        assert(split_words(s)[0] == s.subrange(0, k));
        assert(s.subrange(0, k) == "run"@);
        assert(s.subrange(0, k).len() == k);
        assert(("run"@).len() == 3);
        assert(k == 3);
    }
}

/// Parses the words after a `new` header; `words[0]` is the header itself.
fn parse_new(words: &Vec<String>) -> (r: Result<Command, Error>)
    requires
        words@.len() >= 1,
    ensures
        new_parses_to(line_views(words@).drop_first(), r),
{
    let ghost ws = line_views(words@);
    let mut height: usize = DEFAULT_HEIGHT;
    let mut private: bool = false;
    let mut i: usize = 1;
    proof {
        assert(ws.drop_first() =~~= ws.skip(1));
    }
    while i < words.len()
        invariant
            1 <= i <= words@.len(),
            ws == line_views(words@),
            parse_new_words(ws.skip(1), DEFAULT_HEIGHT as int, false) == parse_new_words(
                ws.skip(i as int),
                height as int,
                private,
            ),
        decreases words@.len() - i,
    {
        let w = &words[i];
        let ghost tail = ws.skip(i as int);
        proof {
            assert(tail.len() == ws.len() - i);
            assert(tail[0] == w@);
            assert(tail.drop_first() =~~= ws.skip(i as int + 1));
        }
        if starts_with(w.as_str(), "height") {
            let wn = w.as_str().unicode_len();
            if wn < 7 {
                return Err(Error::MissingArgument(String::from_str("int after 'height'")));
            }
            let digits = w.as_str().substring_char(7, wn);
            match crate::text::parse_usize(digits) {
                Some(v) => {
                    height = v;
                },
                None => {
                    return Err(Error::InvalidNumber);
                },
            }
        } else if eq_str(w.as_str(), "private") {
            private = true;
        }
        i += 1;
    }
    proof {
        assert(ws.skip(i as int) =~~= Seq::<Seq<char>>::empty());
        assert(ws.drop_first() =~~= ws.skip(1));
    }
    if height > HEIGHT_LIMIT {
        Err(Error::HeightToLarge(height))
    } else {
        Ok(Command::New { height, private })
    }
}

} // verus!
