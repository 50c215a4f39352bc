//! The pure parts of the command-line front end: reading issue ids and the
//! arguments of each command.

pub mod agent_init;
pub mod board;
pub mod config;
pub mod export;
pub mod import;
pub mod init;
pub mod issue;
pub mod next;
pub mod plan;
pub mod truncate;
pub mod web;

use vstd::prelude::*;

use crate::errors::ParseError;
use crate::model::issue::spec_display_id;
use crate::text::{
    ascii_upper, ascii_upper_char, decimal_digits, decimal_i64, decimal_text, digit_char, digit_value,
    digits_value, is_ascii_char, is_ascii_text, is_digit, is_white_space, owned, parse_i64, strip_prefix,
    to_uppercase, trim, trim_end, trim_start, trimmed, uppercase_of,
};

verus! {

/// The number part of an issue id text: the trimmed text, without a leading
/// `BMO-` (in any case) when it has one.
pub open spec fn id_body(s: Seq<char>) -> Seq<char> {
    let t = trimmed(s);
    let u = uppercase_of(t);
    if 4 <= u.len() && u.take(4) == "BMO-"@ {
        u.skip(4)
    } else {
        t
    }
}

/// `id_body` for text whose trimmed form is ASCII, where upper case is ASCII
/// upper case.
pub open spec fn ascii_id_body(s: Seq<char>) -> Seq<char> {
    let t = trimmed(s);
    let u = ascii_upper(t);
    if 4 <= u.len() && u.take(4) == "BMO-"@ {
        u.skip(4)
    } else {
        t
    }
}

/// Parse an issue ID that may be in "42" or "BMO-42" format.
pub fn parse_id(s: &str) -> (r: Result<i64, ParseError>)
    ensures
        match decimal_i64(id_body(s@)) {
            Some(n) => r == Ok::<i64, ParseError>(n),
            None => r matches Err(ParseError::InvalidIssueId(t)) && t@ == s@,
        },
        is_ascii_text(trimmed(s@)) ==> id_body(s@) == ascii_id_body(s@),
{
    let t = trim(s);
    let u = to_uppercase(t);
    let stripped = match strip_prefix(u.as_str(), "BMO-") {
        Some(rest) => rest,
        None => t,
    };
    proof {
        reveal_strlit("BMO-");
    }
    match parse_i64(stripped) {
        Some(n) => Ok(n),
        None => Err(ParseError::InvalidIssueId(owned(s))),
    }
}

proof fn lemma_digit_char(d: nat)
    requires
        d < 10,
    ensures
        is_digit(digit_char(d)),
        digit_value(digit_char(d)) == d,
        is_ascii_char(digit_char(d)),
        !is_white_space(digit_char(d)),
        ascii_upper_char(digit_char(d)) == digit_char(d),
        digit_char(d) != '-' && digit_char(d) != '+' && digit_char(d) != 'B',
{
}

pub open spec fn plain_digit(c: char) -> bool {
    &&& is_digit(c)
    &&& is_ascii_char(c)
    &&& !is_white_space(c)
    &&& ascii_upper_char(c) == c
    &&& c != '-' && c != '+' && c != 'B'
}

proof fn lemma_decimal_digits(m: nat)
    ensures
        decimal_digits(m).len() >= 1,
        forall|i: int| #![trigger decimal_digits(m)[i]] 0 <= i < decimal_digits(m).len() ==> plain_digit(decimal_digits(m)[i]),
        digits_value(decimal_digits(m)) == m,
    decreases m,
{
    let d = decimal_digits(m);
    if m < 10 {
        lemma_digit_char(m);
        assert(d.drop_last() =~= Seq::<char>::empty());
        assert(d.last() == digit_char(m));
        assert(digits_value(d) == digits_value(d.drop_last()) * 10 + digit_value(d.last()));
    } else {
        lemma_decimal_digits(m / 10);
        lemma_digit_char(m % 10);
        let s = decimal_digits(m / 10);
        assert(d.drop_last() =~= s);
        assert(d.last() == digit_char(m % 10));
        assert(digits_value(d) == digits_value(s) * 10 + digit_value(d.last()));
        assert((m / 10) * 10 + m % 10 == m) by (nonlinear_arith);
        assert forall|i: int| #![trigger d[i]] 0 <= i < d.len() implies plain_digit(d[i]) by {
            if i < s.len() {
                assert(d[i] == s[i]);
            }
        }
    }
}

/// The decimal form of a number reads back as that number.
pub proof fn lemma_decimal_round_trip(n: i64)
    ensures
        decimal_i64(decimal_text(n as int)) == Some(n),
        is_ascii_text(decimal_text(n as int)),
        decimal_text(n as int).len() >= 1,
{
    let s = decimal_text(n as int);
    if n < 0 {
        let m = (-n) as nat;
        lemma_decimal_digits(m);
        let d = decimal_digits(m);
        assert(s[0] == '-');
        assert(s.drop_first() =~= d);
        assert forall|i: int| 0 <= i < s.len() implies is_ascii_char(#[trigger] s[i]) by {
            if i > 0 {
                assert(s[i] == d[i - 1]);
                assert(plain_digit(d[i - 1]));
            }
        }
        assert forall|i: int| 0 <= i < d.len() implies is_digit(#[trigger] d[i]) by {
            assert(plain_digit(d[i]));
        }
    } else {
        lemma_decimal_digits(n as nat);
        let d = decimal_digits(n as nat);
        assert(plain_digit(d[0]));
        assert forall|i: int| 0 <= i < s.len() implies is_ascii_char(#[trigger] s[i]) by {
            assert(plain_digit(d[i]));
        }
        assert forall|i: int| 0 <= i < d.len() implies is_digit(#[trigger] d[i]) by {
            assert(plain_digit(d[i]));
        }
    }
}

proof fn lemma_trim_plain(s: Seq<char>)
    requires
        s.len() >= 1,
        !is_white_space(s[0]),
        !is_white_space(s.last()),
    ensures
        trimmed(s) == s,
{
}

/// Issue ids read back: the number a display id shows, or the number alone,
/// parses to that number.
pub proof fn lemma_display_id_round_trip(n: i64)
    ensures
        is_ascii_text(trimmed(spec_display_id(n))),
        decimal_i64(ascii_id_body(spec_display_id(n))) == Some(n),
        is_ascii_text(trimmed(decimal_text(n as int))),
        decimal_i64(ascii_id_body(decimal_text(n as int))) == Some(n),
{
    reveal_strlit("BMO-");
    lemma_decimal_round_trip(n);
    let d = decimal_text(n as int);
    let m = if n < 0 { (-n) as nat } else { n as nat };
    lemma_decimal_digits(m);
    let digits = decimal_digits(m);
    assert(d.last() == digits[digits.len() - 1]);
    assert(plain_digit(digits[digits.len() - 1]));
    assert(plain_digit(digits[0]));
    assert(d[0] == '-' || d[0] == digits[0]);
    assert forall|i: int| 0 <= i < d.len() implies ascii_upper_char(#[trigger] d[i]) == d[i] by {
        if n < 0 && i > 0 {
            assert(d[i] == digits[i - 1]);
            assert(plain_digit(digits[i - 1]));
        } else if n >= 0 {
            assert(plain_digit(digits[i]));
        }
    }
    assert(ascii_upper(d) =~= d);
    lemma_trim_plain(d);
    if 4 <= d.len() {
        assert(d.take(4)[0] == d[0]);
    }
    let s = spec_display_id(n);
    assert(s.last() == d.last());
    lemma_trim_plain(s);
    assert forall|i: int| 0 <= i < s.len() implies is_ascii_char(#[trigger] s[i]) by {
        if i >= 4 {
            assert(s[i] == d[i - 4]);
        }
    }
    assert forall|i: int| 0 <= i < s.len() implies ascii_upper_char(#[trigger] s[i]) == s[i] by {
        if i >= 4 {
            assert(s[i] == d[i - 4]);
        }
    }
    assert(ascii_upper(s) =~= s);
    assert(s.take(4) =~= "BMO-"@);
    assert(s.skip(4) =~= d);
}

// ── Commands ──────────────────────────────────────────────────────────────────

/// The command line: JSON output or not, the database file if given, and the command.
#[derive(Debug)]
pub struct Cli {
    pub json: bool,
    pub db: Option<String>,
    pub command: Commands,
}

/// The commands of `bmo`. The issue commands can be given at the top level
/// (`bmo create`) or under `bmo issue`.
#[derive(Debug)]
pub enum Commands {
    Init(init::InitArgs),
    Config(config::ConfigArgs),
    Version,
    Stats,
    Export(export::ExportArgs),
    Import(import::ImportArgs),
    Board(board::BoardArgs),
    Next(next::NextArgs),
    Plan(plan::PlanArgs),
    Web(web::WebArgs),
    Truncate(truncate::TruncateArgs),
    AgentInit(agent_init::AgentInitArgs),
    Claim(issue::claim::ClaimArgs),
    Create(issue::create::CreateArgs),
    List(issue::list::ListArgs),
    Show(issue::show::ShowArgs),
    Edit(issue::edit::EditArgs),
    Move(issue::move_cmd::MoveArgs),
    Close(issue::close::CloseArgs),
    Reopen(issue::reopen::ReopenArgs),
    Delete(issue::delete::DeleteArgs),
    Log(issue::log_cmd::LogArgs),
    Graph(issue::graph::GraphArgs),
    Comment(issue::comment::CommentCommands),
    Label(issue::label::LabelCommands),
    Link(issue::link::LinkCommands),
    File(issue::file_cmd::FileCommands),
    Issue(issue::IssueCommands),
}

/// An answer to a confirmation that agrees: `y` or `Y`, white space around it
/// ignored.
pub open spec fn agrees(answer: Seq<char>) -> bool {
    trimmed(answer) == "y"@ || trimmed(answer) == "Y"@
}

/// Whether a confirmation was answered yes.
pub fn is_yes(answer: &str) -> (r: bool)
    ensures
        r == agrees(answer@),
{
    let t = trim(answer);
    crate::text::str_eq(t, "y") || crate::text::str_eq(t, "Y")
}

} // verus!
