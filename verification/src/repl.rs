//! The interactive session, without its input and output: what one line
//! of input means, how it changes the settings, and what is to be shown.

use vstd::prelude::*;
use crate::args::Args;
use crate::bind::{abstractions, resolve, Binder};
use crate::chars::{chars_of, is_space, is_whitespace, push_char};
use crate::eval::{reduce, steps_taken, texts, trace_eval, trace_lines, truncated};
use crate::expr::{decimal, format_term, write_decimal, Term};
use crate::lexer::skip_spaces;
use crate::parser::{parse, parse_text};
use crate::token::message_text;

verus! {

/// The first index from `i` on at which `s` holds white space or ends:
/// the end of the word that begins at `i`.
pub open spec fn word_end(s: Seq<char>, i: nat) -> nat
    decreases s.len() - i,
{
    if i < s.len() && !is_space(s[i as int]) {
        word_end(s, i + 1)
    } else {
        i
    }
}

/// The value of a decimal digit.
pub open spec fn digit_value(c: char) -> nat {
    (c as nat - '0' as nat) as nat
}

/// Whether a text holds ASCII decimal digits only.
pub open spec fn all_digits(s: Seq<char>) -> bool {
    forall|k: int| 0 <= k < s.len() ==> '0' <= #[trigger] s[k] <= '9'
}

/// The number that decimal digits denote.
pub open spec fn digits_value(s: Seq<char>) -> nat
    decreases s.len(),
{
    if s.len() == 0 {
        0
    } else {
        digits_value(s.drop_last()) * 10 + digit_value(s.last())
    }
}

/// The number that a word denotes: an optional `+`, then one decimal
/// digit or more, with a value that fits the machine word. Anything else
/// denotes no number.
pub open spec fn number_of(word: Seq<char>) -> Option<nat> {
    let digits = if word.len() > 0 && word[0] == '+' {
        word.drop_first()
    } else {
        word
    };
    if digits.len() > 0 && all_digits(digits) && digits_value(digits) <= usize::MAX {
        Some(digits_value(digits))
    } else {
        None
    }
}

/// The mathematical value of a command.
pub enum Request {
    Empty,
    Quit,
    Help,
    TogglePrint,
    ToggleUnique,
    ShowTrace,
    SetTrace(nat),
    BadTrace,
    Unknown(Seq<char>),
    Evaluate,
}

/// What a line of input asks for.
#[derive(Debug)]
pub enum Command {
    /// Nothing: the line is blank.
    Empty,
    /// Leave the session.
    Quit,
    /// Show the commands.
    Help,
    /// Switch the showing of steps on or off.
    TogglePrint,
    /// Switch the showing of identities on or off.
    ToggleUnique,
    /// Show the step budget.
    ShowTrace,
    /// Set the step budget.
    SetTrace(usize),
    /// Set the step budget, but what follows is no number.
    BadTrace,
    /// A command that there is not, by its first word.
    Unknown(String),
    /// Evaluate the line as an expression.
    Evaluate,
}

impl View for Command {
    type V = Request;

    open spec fn view(&self) -> Request {
        match self {
            Command::Empty => Request::Empty,
            Command::Quit => Request::Quit,
            Command::Help => Request::Help,
            Command::TogglePrint => Request::TogglePrint,
            Command::ToggleUnique => Request::ToggleUnique,
            Command::ShowTrace => Request::ShowTrace,
            Command::SetTrace(n) => Request::SetTrace(*n as nat),
            Command::BadTrace => Request::BadTrace,
            Command::Unknown(word) => Request::Unknown(word@),
            Command::Evaluate => Request::Evaluate,
        }
    }
}

/// What a command word asks for, given the word that follows it, if any.
pub open spec fn request_of_words(first: Seq<char>, second: Option<Seq<char>>) -> Request {
    if first == ":q"@ || first == ":quit"@ {
        Request::Quit
    } else if first == ":h"@ || first == ":help"@ {
        Request::Help
    } else if first == ":p"@ || first == ":print"@ {
        Request::TogglePrint
    } else if first == ":u"@ || first == ":unique"@ {
        Request::ToggleUnique
    } else if first == ":t"@ || first == ":trace"@ {
        match second {
            None => Request::ShowTrace,
            Some(word) => match number_of(word) {
                Some(n) => Request::SetTrace(n),
                None => Request::BadTrace,
            },
        }
    } else {
        Request::Unknown(first)
    }
}

/// What a line asks for. A line of white space alone asks for nothing. A
/// line whose first character that is no white space is `:` is a command:
/// its words are the runs of characters between white space, the first
/// names the command, the second is its argument. Any other line is an
/// expression to evaluate.
pub open spec fn request_of(line: Seq<char>) -> Request {
    let start = skip_spaces(line, 0);
    if start >= line.len() {
        Request::Empty
    } else if line[start as int] != ':' {
        Request::Evaluate
    } else {
        let end = word_end(line, start);
        let first = line.subrange(start as int, end as int);
        let next = skip_spaces(line, end);
        let second = if next < line.len() {
            Some(line.subrange(next as int, word_end(line, next) as int))
        } else {
            None
        };
        request_of_words(first, second)
    }
}

/// Digits in front of others denote no more than all of them together.
pub proof fn lemma_digits_value_grows(s: Seq<char>, n: nat)
    requires
        n <= s.len(),
        all_digits(s),
    ensures
        digits_value(s.take(n as int)) <= digits_value(s),
    decreases s.len() - n,
{
    if n < s.len() {
        let front = s.drop_last();
        lemma_digits_value_grows(front, n);
        assert(front.take(n as int) =~= s.take(n as int));
    } else {
        assert(s.take(n as int) =~= s);
    }
}

/// The first index from `from` on at which `chars` holds no white space.
fn skip_space(chars: &Vec<char>, from: usize) -> (r: usize)
    requires
        from <= chars.len(),
    ensures
        r == skip_spaces(chars@, from as nat),
        from <= r <= chars.len(),
{
    let mut i = from;
    while i < chars.len() && is_whitespace(chars[i])
        invariant
            from <= i <= chars.len(),
            skip_spaces(chars@, i as nat) == skip_spaces(chars@, from as nat),
        decreases chars.len() - i,
    {
        i += 1;
    }
    i
}

/// The end of the word that begins at `from`.
fn find_word_end(chars: &Vec<char>, from: usize) -> (r: usize)
    requires
        from <= chars.len(),
    ensures
        r == word_end(chars@, from as nat),
        from <= r <= chars.len(),
{
    let mut i = from;
    while i < chars.len() && !is_whitespace(chars[i])
        invariant
            from <= i <= chars.len(),
            word_end(chars@, i as nat) == word_end(chars@, from as nat),
        decreases chars.len() - i,
    {
        i += 1;
    }
    i
}

/// The characters of `chars` from `from` up to `to`, as a string.
fn text_of(chars: &Vec<char>, from: usize, to: usize) -> (r: String)
    requires
        from <= to <= chars.len(),
    ensures
        r@ == chars@.subrange(from as int, to as int),
{
    let mut text = String::new();
    let mut i = from;
    while i < to
        invariant
            from <= i <= to <= chars.len(),
            text@ == chars@.subrange(from as int, i as int),
        decreases to - i,
    {
        push_char(&mut text, chars[i]);
        i += 1;
    }
    text
}

/// The number that the word from `from` up to `to` denotes, if any.
#[verifier::loop_isolation(false)]
fn parse_number(chars: &Vec<char>, from: usize, to: usize) -> (r: Option<usize>)
    requires
        from <= to <= chars.len(),
    ensures
        match number_of(chars@.subrange(from as int, to as int)) {
            Some(n) => r == Some(n as usize) && n <= usize::MAX,
            None => r is None,
        },
{
    let ghost word = chars@.subrange(from as int, to as int);
    let start = if from < to && chars[from] == '+' {
        from + 1
    } else {
        from
    };
    let ghost digits = chars@.subrange(start as int, to as int);
    proof {
        if from < to && chars[from as int] == '+' {
            assert(digits =~= word.drop_first());
        }
    }
    if start == to {
        return None;
    }
    let mut value: usize = 0;
    let mut i = start;
    while i < to
        invariant
            start <= i <= to <= chars.len(),
            digits == chars@.subrange(start as int, to as int),
            all_digits(digits.take(i - start)),
            value == digits_value(digits.take(i - start)),
        decreases to - i,
    {
        let c = chars[i];
        let ghost seen = digits.take(i - start);
        let ghost more = digits.take(i + 1 - start);
        proof {
            assert(more.drop_last() =~= seen);
        }
        if !('0' <= c && c <= '9') {
            proof {
                assert(!('0' <= digits[i - start] <= '9'));
            }
            return None;
        }
        let d: usize = (c as u32 - '0' as u32) as usize;
        if value > (usize::MAX - d) / 10 {
            proof {
                if all_digits(digits) {
                    lemma_digits_value_grows(digits, (i + 1 - start) as nat);
                }
            }
            return None;
        }
        value = value * 10 + d;
        i += 1;
    }
    proof {
        assert(digits.take(to - start) =~= digits);
    }
    Some(value)
}

/// Reads a line of input as a command.
pub fn read_command(line: &str) -> (r: Command)
    ensures
        r@ == request_of(line@),
{
    let chars = chars_of(line);
    let start = skip_space(&chars, 0);
    if start >= chars.len() {
        return Command::Empty;
    }
    if chars[start] != ':' {
        return Command::Evaluate;
    }
    let end = find_word_end(&chars, start);
    let first = text_of(&chars, start, end);
    if first == ":q".to_owned() || first == ":quit".to_owned() {
        Command::Quit
    } else if first == ":h".to_owned() || first == ":help".to_owned() {
        Command::Help
    } else if first == ":p".to_owned() || first == ":print".to_owned() {
        Command::TogglePrint
    } else if first == ":u".to_owned() || first == ":unique".to_owned() {
        Command::ToggleUnique
    } else if first == ":t".to_owned() || first == ":trace".to_owned() {
        let next = skip_space(&chars, end);
        if next < chars.len() {
            let stop = find_word_end(&chars, next);
            match parse_number(&chars, next, stop) {
                Some(n) => Command::SetTrace(n),
                None => Command::BadTrace,
            }
        } else {
            Command::ShowTrace
        }
    } else {
        Command::Unknown(first)
    }
}

/// What the session does after a line.
#[derive(Debug, Clone, Copy, PartialEq, Eq, Structural)]
pub enum Outcome {
    /// It reads the next line.
    Continue,
    /// It ends.
    Quit,
    /// It cannot go on: the identities left do not suffice to bind the
    /// expression of this line. Nothing was changed and nothing is to be
    /// shown.
    OutOfIdentities,
}

/// A truth value as text.
pub open spec fn bool_text(b: bool) -> Seq<char> {
    if b {
        "true"@
    } else {
        "false"@
    }
}

/// The settings after a command.
pub open spec fn settings_after(request: Request, args: Args) -> Args {
    match request {
        Request::TogglePrint => Args { print_step: !args.print_step, ..args },
        Request::ToggleUnique => Args { unique_id: !args.unique_id, ..args },
        Request::SetTrace(n) => Args { trace: n as usize, ..args },
        _ => args,
    }
}

/// The lines that list the commands, with the settings as they are.
pub open spec fn help_lines(args: Args) -> Seq<Seq<char>> {
    seq![
        "Available commands:"@,
        "  :h, :help          - Show this help message"@,
        "  :q, :quit          - Exit the program"@,
        "  :p, :print         - Toggle print step (current: "@ + bool_text(args.print_step)
            + ")"@,
        "  :u, :unique        - Toggle unique ID (current: "@ + bool_text(args.unique_id) + ")"@,
        "  :t, :trace [num]   - Show or set trace limit (current: "@ + decimal(args.trace as nat)
            + ")"@,
    ]
}

/// The lines to show in reply to a command, given the settings before it.
pub open spec fn reply_lines(request: Request, args: Args) -> Seq<Seq<char>> {
    match request {
        Request::Help => help_lines(args),
        Request::TogglePrint => seq!["Print step: "@ + bool_text(!args.print_step)],
        Request::ToggleUnique => seq!["Unique ID: "@ + bool_text(!args.unique_id)],
        Request::ShowTrace => seq!["Current trace limit: "@ + decimal(args.trace as nat)],
        Request::SetTrace(n) => seq!["Trace limit: "@ + decimal(n)],
        Request::BadTrace => seq!["Error: Invalid number for trace limit"@],
        Request::Unknown(word) => seq![
            "Unknown command: "@ + word + ". Type :help for available commands."@,
        ],
        _ => Seq::empty(),
    }
}

/// The lines to show for an expression: the trace where steps are shown,
/// then the term reached within the step budget, then `...` if the
/// reduction gave up. The term is bound with identities from `next` on.
pub open spec fn evaluation_lines(term: Term, args: Args, next: nat) -> Seq<Seq<char>> {
    let bound = resolve(term, Map::empty(), next);
    let result = reduce(bound, args.trace as nat);
    (if args.print_step {
        trace_lines(bound, steps_taken(bound, args.trace as nat), args.unique_id)
    } else {
        Seq::<Seq<char>>::empty()
    }) + seq![format_term(result, args.unique_id)] + (if truncated(bound, args.trace as nat) {
        seq!["..."@]
    } else {
        Seq::<Seq<char>>::empty()
    })
}

/// A session after one line: what it does next, its settings, the next
/// identity, and the lines to show.
pub struct Turn {
    pub outcome: Outcome,
    pub args: Args,
    pub next: nat,
    pub lines: Seq<Seq<char>>,
}

/// What one line of input does to a session with the settings `args`
/// and the next identity `next`.
pub open spec fn turn(line: Seq<char>, args: Args, next: nat) -> Turn {
    match request_of(line) {
        Request::Quit => Turn { outcome: Outcome::Quit, args, next, lines: Seq::empty() },
        Request::Evaluate => match parse_text(line) {
            Err(failure) => Turn {
                outcome: Outcome::Continue,
                args,
                next,
                lines: seq!["Error: "@ + message_text(failure)],
            },
            Ok(term) => if next + abstractions(term) <= usize::MAX {
                Turn {
                    outcome: Outcome::Continue,
                    args,
                    next: next + abstractions(term),
                    lines: evaluation_lines(term, args, next),
                }
            } else {
                Turn { outcome: Outcome::OutOfIdentities, args, next, lines: Seq::empty() }
            },
        },
        request => Turn {
            outcome: Outcome::Continue,
            args: settings_after(request, args),
            next,
            lines: reply_lines(request, args),
        },
    }
}

/// A truth value as a string.
fn bool_string(b: bool) -> (r: String)
    ensures
        r@ == bool_text(b),
{
    if b {
        "true".to_owned()
    } else {
        "false".to_owned()
    }
}

/// The line `front`, a truth value, `back`.
fn line_with_bool(front: &str, b: bool, back: &str) -> (r: String)
    ensures
        r@ == front@ + bool_text(b) + back@,
{
    let mut line = front.to_owned();
    let text = bool_string(b);
    line.append(text.as_str());
    line.append(back);
    line
}

/// The line `front`, a number in decimal, `back`.
fn line_with_number(front: &str, n: usize, back: &str) -> (r: String)
    ensures
        r@ == front@ + decimal(n as nat) + back@,
{
    let mut line = front.to_owned();
    write_decimal(n, &mut line);
    line.append(back);
    line
}

/// Carries out a command that is no expression: changes the settings as
/// the command says and appends the reply to `out`.
pub fn respond(command: &Command, args: &mut Args, out: &mut Vec<String>)
    ensures
        *final(args) == settings_after(command@, *old(args)),
        texts(final(out)@) == texts(old(out)@) + reply_lines(command@, *old(args)),
{
    let ghost was = *args;
    match command {
        Command::Help => {
            let l0 = "Available commands:".to_owned();
            let l1 = "  :h, :help          - Show this help message".to_owned();
            let l2 = "  :q, :quit          - Exit the program".to_owned();
            let l3 = line_with_bool(
                "  :p, :print         - Toggle print step (current: ",
                args.print_step,
                ")",
            );
            let l4 = line_with_bool(
                "  :u, :unique        - Toggle unique ID (current: ",
                args.unique_id,
                ")",
            );
            let l5 = line_with_number(
                "  :t, :trace [num]   - Show or set trace limit (current: ",
                args.trace,
                ")",
            );
            out.push(l0);
            out.push(l1);
            out.push(l2);
            out.push(l3);
            out.push(l4);
            out.push(l5);
        },
        Command::TogglePrint => {
            args.print_step = !args.print_step;
            let line = line_with_bool("Print step: ", args.print_step, "");
            out.push(line);
            proof {
                assert(line@ =~= "Print step: "@ + bool_text(!was.print_step)) by {
                    reveal_strlit("");
                }
            }
        },
        Command::ToggleUnique => {
            args.unique_id = !args.unique_id;
            let line = line_with_bool("Unique ID: ", args.unique_id, "");
            out.push(line);
            proof {
                assert(line@ =~= "Unique ID: "@ + bool_text(!was.unique_id)) by {
                    reveal_strlit("");
                }
            }
        },
        Command::ShowTrace => {
            let line = line_with_number("Current trace limit: ", args.trace, "");
            out.push(line);
            proof {
                assert(line@ =~= "Current trace limit: "@ + decimal(was.trace as nat)) by {
                    reveal_strlit("");
                }
            }
        },
        Command::SetTrace(n) => {
            args.trace = *n;
            let line = line_with_number("Trace limit: ", args.trace, "");
            out.push(line);
            proof {
                assert(line@ =~= "Trace limit: "@ + decimal(*n as nat)) by {
                    reveal_strlit("");
                }
            }
        },
        Command::BadTrace => {
            let line = "Error: Invalid number for trace limit".to_owned();
            out.push(line);
        },
        Command::Unknown(word) => {
            let mut line = "Unknown command: ".to_owned();
            line.append(word.as_str());
            line.append(". Type :help for available commands.");
            out.push(line);
        },
        _ => {},
    }
}

/// Takes one line of input: carries out the command or evaluates the
/// expression that it holds, and appends to `out` what is to be shown.
pub fn handle_line(line: &str, args: &mut Args, binder: &mut Binder, out: &mut Vec<String>) -> (r:
    Outcome)
    ensures
        r == turn(line@, *old(args), old(binder).next()).outcome,
        *final(args) == turn(line@, *old(args), old(binder).next()).args,
        final(binder).next() == turn(line@, *old(args), old(binder).next()).next,
        texts(final(out)@) == texts(old(out)@) + turn(
            line@,
            *old(args),
            old(binder).next(),
        ).lines,
{
    let command = read_command(line);
    match command {
        Command::Quit => Outcome::Quit,
        Command::Evaluate => {
            match parse(line) {
                Err(error) => {
                    let mut text = "Error: ".to_owned();
                    let message = error.message();
                    text.append(message.as_str());
                    out.push(text);
                    Outcome::Continue
                },
                Ok(expr) => {
                    if !binder.has_room(&expr) {
                        return Outcome::OutOfIdentities;
                    }
                    let bound = binder.bind_vars(*expr);
                    let result = trace_eval(bound, args.trace, args.unique_id, args.print_step, out);
                    let shown = result.0.format(args.unique_id);
                    let ghost mid = out@;
                    out.push(shown);
                    proof {
                        assert(texts(out@) =~= texts(mid) + seq![shown@]);
                    }
                    if result.1 {
                        let dots = "...".to_owned();
                        let ghost shown_all = out@;
                        out.push(dots);
                        proof {
                            assert(texts(out@) =~= texts(shown_all) + seq!["..."@]);
                        }
                    }
                    Outcome::Continue
                },
            }
        },
        _ => {
            respond(&command, args, out);
            Outcome::Continue
        },
    }
}

} // verus!
