//! Files of commands: their lines, and the words of each line.

use vstd::prelude::*;
#[allow(unused_imports)]
use vstd::string::*;

use crate::error::Error;
#[allow(unused_imports)]
use crate::render::texts;
use crate::text::{chars_of, is_white_space, same, string_between};

verus! {

/// How far the reading of a line has come.
#[verifier::ext_equal]
pub struct LineState {
    pub args: Seq<Seq<char>>,
    pub token: Seq<char>,
    pub quote: Option<char>,
}

/// What can be wrong with a line.
pub enum LineFault {
    EndsWithEscape,
    Unterminated(char),
}

impl LineFault {
    /// Whether an error speaks of this.
    pub open spec fn told_by(self, error: Error) -> bool {
        match self {
            LineFault::EndsWithEscape => error == Error::LineEndsWithEscape,
            LineFault::Unterminated(quote) => error == Error::UnterminatedQuote {
                double: quote == '"',
            },
        }
    }
}

impl LineState {
    pub open spec fn started() -> LineState {
        LineState { args: seq![], token: seq![], quote: None }
    }

    /// With one more character in the word that is being read.
    pub open spec fn with(self, c: char) -> LineState {
        LineState { token: self.token.push(c), ..self }
    }

    /// With the word that is being read ended, unless it is empty.
    pub open spec fn word_ended(self) -> LineState {
        if self.token.len() > 0 {
            LineState { args: self.args.push(self.token), token: seq![], ..self }
        } else {
            self
        }
    }
}

/// The reading of a line from a place on: `None` where a comment begins before
/// the first word. Blanks part words, quotes keep them together, and a backslash
/// takes the next character as it is.
pub open spec fn line_read(line: Seq<char>, at: int, state: LineState) -> Result<
    Option<LineState>,
    LineFault,
>
    decreases line.len() - at,
{
    if at < 0 || at >= line.len() {
        Ok(Some(state))
    } else {
        let c = line[at];
        if state.quote is None && c == '#' && state.token.len() == 0 && state.args.len() == 0 {
            Ok(None)
        } else if state.quote is None && crate::text::white_space(c) {
            line_read(line, at + 1, state.word_ended())
        } else if state.quote is None && (c == '\'' || c == '"') {
            line_read(line, at + 1, LineState { quote: Some(c), ..state })
        } else if state.quote == Some(c) {
            line_read(line, at + 1, LineState { quote: None, ..state })
        } else if c == '\\' {
            if at + 1 < line.len() {
                line_read(line, at + 2, state.with(line[at + 1]))
            } else {
                Err(LineFault::EndsWithEscape)
            }
        } else {
            line_read(line, at + 1, state.with(c))
        }
    }
}

/// Words without the name of the program in front of them.
pub open spec fn without_program(args: Seq<Seq<char>>) -> Seq<Seq<char>> {
    if args.len() > 0 && args[0] == "rmux"@ {
        args.remove(0)
    } else {
        args
    }
}

/// The words of a line: `None` where it has none.
pub open spec fn words_read(line: Seq<char>) -> Result<Option<Seq<Seq<char>>>, LineFault> {
    match line_read(line, 0, LineState::started()) {
        Err(fault) => Err(fault),
        Ok(None) => Ok(None),
        Ok(Some(state)) => match state.quote {
            Some(quote) => Err(LineFault::Unterminated(quote)),
            None => {
                let args = without_program(state.word_ended().args);
                if args.len() == 0 {
                    Ok(None)
                } else {
                    Ok(Some(args))
                }
            },
        },
    }
}

pub open spec fn shown_args(args: Option<Vec<String>>) -> Option<Seq<Seq<char>>> {
    match args {
        Some(args) => Some(texts(args@)),
        None => None,
    }
}

/// The words of a line: `None` where it has none.
pub fn parse_source_line(line: &str) -> (result: Result<Option<Vec<String>>, Error>)
    ensures
        match words_read(line@) {
            Ok(words) => result matches Ok(args) && shown_args(args) == words,
            Err(fault) => result matches Err(error) && fault.told_by(error),
        },
{
    let chars = chars_of(line);
    let mut args: Vec<String> = Vec::new();
    let mut token = String::new();
    let mut token_empty = true;
    let mut quote: Option<char> = None;
    let mut at: usize = 0;
    assert(texts(args@) =~= seq![]);
    assert(token@ =~= seq![]);
    while at < chars.len()
        invariant
            at <= chars@.len(),
            chars@ == line@,
            token_empty == (token@.len() == 0),
            quote matches Some(q) ==> q == '\'' || q == '"',
            line_read(line@, 0, LineState::started()) == line_read(
                line@,
                at as int,
                LineState { args: texts(args@), token: token@, quote },
            ),
        decreases chars@.len() - at,
    {
        let c = chars[at];
        let ghost state = LineState { args: texts(args@), token: token@, quote };
        let unquoted = quote.is_none();
        let closes = match quote {
            Some(q) => q == c,
            None => false,
        };
        if unquoted && c == '#' && token_empty && args.len() == 0 {
            return Ok(None);
        } else if unquoted && is_white_space(c) {
            if !token_empty {
                let ghost before = texts(args@);
                args.push(token);
                assert(texts(args@) =~= before.push(token@));
                token = String::new();
                token_empty = true;
                assert(token@ =~= seq![]);
            }
        } else if unquoted && (c == '\'' || c == '"') {
            quote = Some(c);
        } else if closes {
            quote = None;
        } else if c == '\\' {
            if at + 1 >= chars.len() {
                return Err(Error::LineEndsWithEscape);
            }
            at = at + 1;
            token.push(chars[at]);
            token_empty = false;
        } else {
            token.push(c);
            token_empty = false;
        }
        at = at + 1;
    }
    if let Some(q) = quote {
        return Err(Error::UnterminatedQuote { double: q == '"' });
    }
    if !token_empty {
        let ghost before = texts(args@);
        args.push(token);
        assert(texts(args@) =~= before.push(token@));
    }
    let ghost words = texts(args@);
    if args.len() > 0 && same(args[0].as_str(), "rmux") {
        assert(words[0] == args@[0]@);
        args.remove(0);
        assert(texts(args@) =~= words.remove(0));
    } else if args.len() > 0 {
        assert(words[0] == args@[0]@);
    }
    if args.len() == 0 {
        Ok(None)
    } else {
        Ok(Some(args))
    }
}

/// A word with a backslash before each of its characters.
pub open spec fn escaped(word: Seq<char>) -> Seq<char>
    decreases word.len(),
{
    if word.len() == 0 {
        seq![]
    } else {
        seq!['\\', word[0]] + escaped(word.skip(1))
    }
}

/// Escaped words with a blank after each.
pub open spec fn written_line(words: Seq<Seq<char>>) -> Seq<char>
    decreases words.len(),
{
    if words.len() == 0 {
        seq![]
    } else {
        escaped(words[0]) + seq![' '] + written_line(words.skip(1))
    }
}

proof fn lemma_escaped_read(front: Seq<char>, word: Seq<char>, back: Seq<char>, state: LineState)
    requires
        state.quote is None,
    ensures
        line_read(front + escaped(word) + back, front.len() as int, state) == line_read(
            front + escaped(word) + back,
            (front.len() + escaped(word).len()) as int,
            LineState { token: state.token + word, ..state },
        ),
    decreases word.len(),
{
    let line = front + escaped(word) + back;
    if word.len() == 0 {
        assert(state.token + word =~= state.token);
    } else {
        let rest = word.skip(1);
        let start = front + seq!['\\', word[0]];
        assert(line =~= start + escaped(rest) + back);
        let next = state.with(word[0]);
        assert(line[front.len() as int] == '\\');
        assert(line[front.len() as int + 1] == word[0]);
        assert(line_read(line, front.len() as int, state) == line_read(
            line,
            front.len() as int + 2,
            next,
        ));
        lemma_escaped_read(start, rest, back, next);
        assert(next.token + rest =~= state.token + word);
    }
}

proof fn lemma_written_read(front: Seq<char>, words: Seq<Seq<char>>, state: LineState)
    requires
        state.quote is None,
        state.token.len() == 0,
        forall|i: int| 0 <= i < words.len() ==> (#[trigger] words[i]).len() > 0,
    ensures
        line_read(front + written_line(words), front.len() as int, state) == Ok::<
            Option<LineState>,
            LineFault,
        >(Some(LineState { args: state.args + words, ..state })),
    decreases words.len(),
{
    let line = front + written_line(words);
    if words.len() == 0 {
        assert(state.args + words =~= state.args);
    } else {
        let word = words[0];
        let rest = words.skip(1);
        let back = seq![' '] + written_line(rest);
        assert(line =~= front + escaped(word) + back);
        lemma_escaped_read(front, word, back, state);
        let read = LineState { token: state.token + word, ..state };
        assert(read.token =~= word);
        let blank = front.len() + escaped(word).len();
        assert(line[blank as int] == ' ');
        let ended = LineState { args: state.args.push(word), ..state };
        assert(read.word_ended() =~= ended) by {
            assert(state.token =~= seq![]);
        }
        let start = front + escaped(word) + seq![' '];
        assert(line =~= start + written_line(rest));
        assert forall|i: int| 0 <= i < rest.len() implies (#[trigger] rest[i]).len() > 0 by {
            assert(rest[i] == words[i + 1]);
        }
        lemma_written_read(start, rest, ended);
        assert(ended.args + rest =~= state.args + words);
    }
}

/// Any words that are not empty can be written in a line so that they are read
/// back as they are, but for the name of the program in front of them.
pub proof fn law_escaped_words_read_back(words: Seq<Seq<char>>)
    requires
        words.len() > 0,
        forall|i: int| 0 <= i < words.len() ==> (#[trigger] words[i]).len() > 0,
        words[0] != "rmux"@,
    ensures
        words_read(written_line(words)) == Ok::<Option<Seq<Seq<char>>>, LineFault>(Some(words)),
{
    lemma_written_read(seq![], words, LineState::started());
    assert(Seq::<char>::empty() + written_line(words) =~= written_line(words));
    assert(LineState::started().args + words =~= words);
}

/// A word as it stands between double quotes: with a backslash before each double
/// quote and each backslash.
pub open spec fn guarded(word: Seq<char>) -> Seq<char>
    decreases word.len(),
{
    if word.len() == 0 {
        seq![]
    } else if word[0] == '"' || word[0] == '\\' {
        seq!['\\', word[0]] + guarded(word.skip(1))
    } else {
        seq![word[0]] + guarded(word.skip(1))
    }
}

/// A word in double quotes.
pub open spec fn in_quotes(word: Seq<char>) -> Seq<char> {
    seq!['"'] + guarded(word) + seq!['"']
}

/// Words in double quotes with a blank between each two.
pub open spec fn quoted_line(words: Seq<Seq<char>>) -> Seq<char>
    decreases words.len(),
{
    if words.len() == 0 {
        seq![]
    } else if words.len() == 1 {
        in_quotes(words[0])
    } else {
        in_quotes(words[0]) + seq![' '] + quoted_line(words.skip(1))
    }
}

proof fn lemma_guarded_read(front: Seq<char>, word: Seq<char>, back: Seq<char>, state: LineState)
    requires
        state.quote == Some('"'),
    ensures
        line_read(front + guarded(word) + back, front.len() as int, state) == line_read(
            front + guarded(word) + back,
            (front.len() + guarded(word).len()) as int,
            LineState { token: state.token + word, ..state },
        ),
    decreases word.len(),
{
    let line = front + guarded(word) + back;
    let at = front.len() as int;
    if word.len() == 0 {
        assert(state.token + word =~= state.token);
    } else {
        let rest = word.skip(1);
        let next = state.with(word[0]);
        let own = if word[0] == '"' || word[0] == '\\' {
            seq!['\\', word[0]]
        } else {
            seq![word[0]]
        };
        let start = front + own;
        assert(line =~= start + guarded(rest) + back);
        assert(line[at] == own[0]);
        if own.len() == 2 {
            assert(line[at + 1] == word[0]);
        }
        assert(line_read(line, at, state) == line_read(line, at + own.len(), next));
        lemma_guarded_read(start, rest, back, next);
        assert(next.token + rest =~= state.token + word);
    }
}

/// A word in double quotes is read as that word.
proof fn lemma_quotes_read(front: Seq<char>, word: Seq<char>, back: Seq<char>, state: LineState)
    requires
        state.quote is None,
        state.token.len() == 0,
    ensures
        line_read(front + in_quotes(word) + back, front.len() as int, state) == line_read(
            front + in_quotes(word) + back,
            (front.len() + in_quotes(word).len()) as int,
            LineState { token: word, ..state },
        ),
{
    let line = front + in_quotes(word) + back;
    let opened = LineState { quote: Some('"'), ..state };
    let start = front + seq!['"'];
    let end = seq!['"'] + back;
    assert(line =~= start + guarded(word) + end);
    assert(line[front.len() as int] == '"');
    assert(line_read(line, front.len() as int, state) == line_read(
        line,
        start.len() as int,
        opened,
    ));
    lemma_guarded_read(start, word, end, opened);
    let close = (start.len() + guarded(word).len()) as int;
    assert(line[close] == '"');
    assert(state.token + word =~= word);
    let read = LineState { token: word, ..opened };
    assert(line_read(line, close, read) == line_read(
        line,
        close + 1,
        LineState { quote: None, ..read },
    ));
    assert(LineState { quote: None, ..read } =~= LineState { token: word, ..state });
}

proof fn lemma_quoted_read(front: Seq<char>, words: Seq<Seq<char>>, state: LineState)
    requires
        state.quote is None,
        state.token.len() == 0,
        words.len() > 0,
        forall|i: int| 0 <= i < words.len() ==> (#[trigger] words[i]).len() > 0,
    ensures
        line_read(front + quoted_line(words), front.len() as int, state) == Ok::<
            Option<LineState>,
            LineFault,
        >(
            Some(
                LineState { args: state.args + words.drop_last(), token: words.last(), ..state },
            ),
        ),
    decreases words.len(),
{
    let line = front + quoted_line(words);
    let word = words[0];
    if words.len() == 1 {
        assert(line =~= front + in_quotes(word) + Seq::<char>::empty());
        lemma_quotes_read(front, word, seq![], state);
        assert(state.args + words.drop_last() =~= state.args);
    } else {
        let rest = words.skip(1);
        let back = seq![' '] + quoted_line(rest);
        assert(line =~= front + in_quotes(word) + back);
        lemma_quotes_read(front, word, back, state);
        let blank = (front.len() + in_quotes(word).len()) as int;
        assert(line[blank] == ' ');
        let read = LineState { token: word, ..state };
        let ended = LineState { args: state.args.push(word), ..state };
        assert(read.word_ended() =~= ended) by {
            assert(state.token =~= seq![]);
        }
        let start = front + in_quotes(word) + seq![' '];
        assert(line =~= start + quoted_line(rest));
        assert forall|i: int| 0 <= i < rest.len() implies (#[trigger] rest[i]).len() > 0 by {
            assert(rest[i] == words[i + 1]);
        }
        lemma_quoted_read(start, rest, ended);
        assert(ended.args + rest.drop_last() =~= state.args + words.drop_last());
    }
}

/// Any words that are not empty, put in double quotes with each double quote and
/// each backslash in them escaped, are read back as they are. So they are behind
/// the name of the program; without it they are where that is not the first of
/// them.
pub proof fn law_quoted_words_read_back(words: Seq<Seq<char>>)
    requires
        words.len() > 0,
        forall|i: int| 0 <= i < words.len() ==> (#[trigger] words[i]).len() > 0,
    ensures
        words_read("rmux "@ + quoted_line(words)) == Ok::<Option<Seq<Seq<char>>>, LineFault>(
            Some(words),
        ),
        words[0] != "rmux"@ ==> words_read(quoted_line(words)) == Ok::<
            Option<Seq<Seq<char>>>,
            LineFault,
        >(Some(words)),
{
    let line = quoted_line(words);
    let all = words.drop_last().push(words.last());
    assert(all =~= words);
    lemma_quoted_read(seq![], words, LineState::started());
    assert(Seq::<char>::empty() + line =~= line);
    assert(LineState::started().args + words.drop_last() =~= words.drop_last());

    reveal_strlit("rmux ");
    reveal_strlit("rmux");
    let called = "rmux "@ + line;
    let name = LineState { args: seq![], token: "rmux"@, quote: None };
    let started = LineState::started();
    let r = started.with('r');
    let rm = r.with('m');
    let rmu = rm.with('u');
    assert(line_read(called, 0, started) == line_read(called, 1, r));
    assert(line_read(called, 1, r) == line_read(called, 2, rm));
    assert(line_read(called, 2, rm) == line_read(called, 3, rmu));
    assert(rmu.with('x') =~= name);
    assert(line_read(called, 3, rmu) == line_read(called, 4, name));
    let named = LineState { args: seq!["rmux"@], token: seq![], quote: None };
    assert(name.word_ended() =~= named);
    assert(line_read(called, 4, name) == line_read(called, 5, named));
    lemma_quoted_read("rmux "@, words, named);
    let read = LineState {
        args: named.args + words.drop_last(),
        token: words.last(),
        quote: None,
    };
    assert(read.word_ended().args =~= seq!["rmux"@] + words);
    assert((seq!["rmux"@] + words).remove(0) =~= words);
}

proof fn lemma_no_word_is_empty(line: Seq<char>, at: int, state: LineState)
    requires
        forall|i: int| 0 <= i < state.args.len() ==> (#[trigger] state.args[i]).len() > 0,
    ensures
        line_read(line, at, state) matches Ok(Some(read)) ==> forall|i: int|
            0 <= i < read.args.len() ==> (#[trigger] read.args[i]).len() > 0,
    decreases line.len() - at,
{
    if 0 <= at < line.len() {
        let c = line[at];
        lemma_no_word_is_empty(line, at + 1, state.word_ended());
        lemma_no_word_is_empty(line, at + 1, LineState { quote: Some(c), ..state });
        lemma_no_word_is_empty(line, at + 1, LineState { quote: None, ..state });
        lemma_no_word_is_empty(line, at + 1, state.with(c));
        if at + 1 < line.len() {
            lemma_no_word_is_empty(line, at + 2, state.with(line[at + 1]));
        }
    }
}

/// A line that is read has words, and none of them is empty.
pub proof fn law_words_read_are_not_empty(line: Seq<char>)
    ensures
        words_read(line) matches Ok(Some(words)) ==> {
            &&& words.len() > 0
            &&& forall|i: int| 0 <= i < words.len() ==> (#[trigger] words[i]).len() > 0
        },
{
    lemma_no_word_is_empty(line, 0, LineState::started());
    if let Ok(Some(state)) = line_read(line, 0, LineState::started()) {
        let args = state.word_ended().args;
        assert forall|i: int| 0 <= i < without_program(args).len() implies (
        #[trigger] without_program(args)[i]).len() > 0 by {
            if args.len() > 0 && args[0] == "rmux"@ {
                assert(without_program(args)[i] == args[i + 1]);
            }
        }
    }
}

/// The lines of a text: what stands between line feeds, without the carriage
/// return that may stand before one. Nothing follows the last line feed.
pub open spec fn lines_of(text: Seq<char>) -> Seq<Seq<char>>
    decreases text.len(),
{
    if text.len() == 0 {
        seq![]
    } else {
        let end = crate::text::position_of(text, '\n') as int;
        if end < text.len() {
            seq![without_return(text.take(end))] + lines_of(text.skip(end + 1))
        } else {
            seq![text]
        }
    }
}

/// A line without the carriage return at its end.
pub open spec fn without_return(line: Seq<char>) -> Seq<char> {
    if line.len() > 0 && line.last() == '\r' {
        line.drop_last()
    } else {
        line
    }
}

/// The lines of a file.
pub fn source_lines(contents: &str) -> (result: Vec<String>)
    ensures
        texts(result@) == lines_of(contents@),
{
    let chars = chars_of(contents);
    let mut lines: Vec<String> = Vec::new();
    let mut start: usize = 0;
    let mut at: usize = 0;
    assert(texts(lines@) =~= seq![]);
    assert(chars@.skip(0) =~= chars@);
    assert(texts(lines@) + lines_of(chars@) =~= lines_of(chars@));
    while at < chars.len()
        invariant
            start <= at <= chars@.len(),
            chars@ == contents@,
            lines_of(contents@) == texts(lines@) + lines_of(chars@.skip(start as int)),
            forall|i: int| start <= i < at ==> chars@[i] != '\n',
        decreases chars@.len() - at,
    {
        if chars[at] == '\n' {
            let ghost rest = chars@.skip(start as int);
            let end: usize = if at > start && chars[at - 1] == '\r' {
                at - 1
            } else {
                at
            };
            let line = string_between(&chars, start, end);
            let ghost before = texts(lines@);
            proof {
                lemma_first_feed(rest, at - start);
                let taken = rest.take(at - start);
                assert(line@ =~= without_return(taken));
                assert(rest.skip(at - start + 1) =~= chars@.skip(at + 1));
            }
            lines.push(line);
            assert(texts(lines@) =~= before.push(line@));
            assert(before + (seq![line@] + lines_of(chars@.skip(at + 1))) =~= texts(lines@)
                + lines_of(chars@.skip(at + 1)));
            start = at + 1;
        }
        at = at + 1;
    }
    let ghost rest = chars@.skip(start as int);
    if start < chars.len() {
        let line = string_between(&chars, start, chars.len());
        let ghost before = texts(lines@);
        proof {
            crate::text::lemma_position_of(rest, '\n');
            let end = crate::text::position_of(rest, '\n') as int;
            if end < rest.len() {
                assert(chars@[start + end] == '\n');
            }
            assert(line@ =~= rest);
        }
        lines.push(line);
        assert(texts(lines@) =~= before + seq![line@]);
    } else {
        assert(texts(lines@) + Seq::<Seq<char>>::empty() =~= texts(lines@));
    }
    lines
}

proof fn lemma_first_feed(text: Seq<char>, at: int)
    requires
        0 <= at < text.len(),
        text[at] == '\n',
        forall|i: int| 0 <= i < at ==> text[i] != '\n',
    ensures
        crate::text::position_of(text, '\n') == at,
{
    crate::text::lemma_position_of(text, '\n');
}

/// The arguments that a command of a file is run with: it is for the default
/// session unless it says otherwise.
pub fn sourced_args(default_session: &str, args: Vec<String>) -> (result: Vec<String>)
    ensures
        texts(result@) == seq!["--session"@, default_session@] + texts(args@),
{
    let mut all: Vec<String> = Vec::new();
    all.push("--session".to_string());
    all.push(default_session.to_string());
    let ghost given = texts(args@);
    assert(texts(all@) =~= seq!["--session"@, default_session@]);
    let mut args = args;
    all.append(&mut args);
    assert(texts(all@) =~= seq!["--session"@, default_session@] + given);
    all
}

} // verus!
