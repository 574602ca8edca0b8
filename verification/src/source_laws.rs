//! What the lines of a command file are for: words that are written in them, bare,
//! in quotes of either kind or with escapes, are read as they were meant.

use vstd::prelude::*;
#[allow(unused_imports)]
use vstd::string::*;

#[allow(unused_imports)]
use crate::error::Error;
#[allow(unused_imports)]
use crate::source::{line_read, lines_of, words_read, LineFault, LineState};

verus! {

/// A stretch of a word, and how it is written.
#[verifier::ext_equal]
pub enum Piece {
    Bare(Seq<char>),
    Quoted { quote: char, text: Seq<char> },
    Escaped(char),
}

/// A text as it stands between quotes: with a backslash before each such quote and
/// each backslash.
pub open spec fn guarded_in(text: Seq<char>, quote: char) -> Seq<char>
    decreases text.len(),
{
    if text.len() == 0 {
        seq![]
    } else if text[0] == quote || text[0] == '\\' {
        seq!['\\', text[0]] + guarded_in(text.skip(1), quote)
    } else {
        seq![text[0]] + guarded_in(text.skip(1), quote)
    }
}

impl Piece {
    pub open spec fn text(self) -> Seq<char> {
        match self {
            Piece::Bare(text) => text,
            Piece::Quoted { text, .. } => text,
            Piece::Escaped(c) => seq![c],
        }
    }

    pub open spec fn written(self) -> Seq<char> {
        match self {
            Piece::Bare(text) => text,
            Piece::Quoted { quote, text } => seq![quote] + guarded_in(text, quote) + seq![quote],
            Piece::Escaped(c) => seq!['\\', c],
        }
    }

    /// Whether the piece can be written so: quotes are single or double, and what is
    /// bare is not empty and holds no blank, no quote and no backslash.
    pub open spec fn fair(self) -> bool {
        match self {
            Piece::Bare(text) => text.len() > 0 && forall|i: int|
                0 <= i < text.len() ==> bare_char(#[trigger] text[i]),
            Piece::Quoted { quote, .. } => quote == '\'' || quote == '"',
            Piece::Escaped(_) => true,
        }
    }

    /// Whether the piece would begin a comment in front of a line.
    pub open spec fn comments(self) -> bool {
        self matches Piece::Bare(text) && text[0] == '#'
    }
}

/// Whether a character may be written bare: any but quotes, backslashes and white
/// space, so any other that ASCII shows.
pub open spec fn bare_char(c: char) -> bool {
    &&& c != '\'' && c != '"' && c != '\\'
    &&& '!' <= c <= '~' || !crate::text::white_space(c)
}

/// Whether a text is made of blanks.
pub open spec fn blank(text: Seq<char>) -> bool {
    forall|i: int| 0 <= i < text.len() ==> #[trigger] text[i] == ' ' || text[i] == '\t'
}

pub open spec fn word_text(word: Seq<Piece>) -> Seq<char>
    decreases word.len(),
{
    if word.len() == 0 {
        seq![]
    } else {
        word[0].text() + word_text(word.skip(1))
    }
}

pub open spec fn word_written(word: Seq<Piece>) -> Seq<char>
    decreases word.len(),
{
    if word.len() == 0 {
        seq![]
    } else {
        word[0].written() + word_written(word.skip(1))
    }
}

/// Whether a word can be written so, and is not empty.
pub open spec fn fair_word(word: Seq<Piece>) -> bool {
    &&& word_text(word).len() > 0
    &&& forall|i: int| 0 <= i < word.len() ==> (#[trigger] word[i]).fair()
}

pub open spec fn word_texts(words: Seq<Seq<Piece>>) -> Seq<Seq<char>> {
    words.map_values(|word: Seq<Piece>| word_text(word))
}

/// Words with a gap behind each.
pub open spec fn words_written(words: Seq<Seq<Piece>>, gaps: Seq<Seq<char>>) -> Seq<char>
    decreases words.len(),
{
    if words.len() == 0 {
        seq![]
    } else {
        word_written(words[0]) + gaps[0] + words_written(words.skip(1), gaps.skip(1))
    }
}

/// Whether words can be written with such gaps behind them: each word is fair, each
/// gap is of blanks and not empty, and the line does not begin with a comment.
pub open spec fn fair_words(words: Seq<Seq<Piece>>, gaps: Seq<Seq<char>>) -> bool {
    &&& words.len() == gaps.len()
    &&& forall|i: int| 0 <= i < words.len() ==> fair_word(#[trigger] words[i])
    &&& forall|i: int| 0 <= i < gaps.len() ==> blank(#[trigger] gaps[i]) && gaps[i].len() > 0
}

/// Whether nothing of a word could begin a comment.
pub open spec fn uncommented(word: Seq<Piece>) -> bool {
    forall|i: int| 0 <= i < word.len() ==> !(#[trigger] word[i]).comments()
}

proof fn lemma_bare_read(front: Seq<char>, text: Seq<char>, back: Seq<char>, state: LineState)
    requires
        state.quote is None,
        forall|i: int| 0 <= i < text.len() ==> bare_char(#[trigger] text[i]),
        text.len() > 0 && text[0] == '#' ==> state.token.len() > 0 || state.args.len() > 0,
    ensures
        line_read(front + text + back, front.len() as int, state) == line_read(
            front + text + back,
            (front.len() + text.len()) as int,
            LineState { token: state.token + text, ..state },
        ),
    decreases text.len(),
{
    let line = front + text + back;
    let at = front.len() as int;
    if text.len() == 0 {
        assert(state.token + text =~= state.token);
    } else {
        let rest = text.skip(1);
        let next = state.with(text[0]);
        let start = front + seq![text[0]];
        assert(line =~= start + rest + back);
        assert(line[at] == text[0]);
        assert(bare_char(text[0]));
        assert(line_read(line, at, state) == line_read(line, at + 1, next));
        assert forall|i: int| 0 <= i < rest.len() implies bare_char(#[trigger] rest[i]) by {
            assert(rest[i] == text[i + 1]);
        }
        lemma_bare_read(start, rest, back, next);
        assert(next.token + rest =~= state.token + text);
    }
}

proof fn lemma_guarded_read(
    front: Seq<char>,
    text: Seq<char>,
    back: Seq<char>,
    state: LineState,
    quote: char,
)
    requires
        state.quote == Some(quote),
        quote == '\'' || quote == '"',
    ensures
        line_read(front + guarded_in(text, quote) + back, front.len() as int, state)
            == line_read(
            front + guarded_in(text, quote) + back,
            (front.len() + guarded_in(text, quote).len()) as int,
            LineState { token: state.token + text, ..state },
        ),
    decreases text.len(),
{
    let line = front + guarded_in(text, quote) + back;
    let at = front.len() as int;
    if text.len() == 0 {
        assert(state.token + text =~= state.token);
    } else {
        let rest = text.skip(1);
        let next = state.with(text[0]);
        let own = if text[0] == quote || text[0] == '\\' {
            seq!['\\', text[0]]
        } else {
            seq![text[0]]
        };
        let start = front + own;
        assert(line =~= start + guarded_in(rest, quote) + back);
        assert(line[at] == own[0]);
        if own.len() == 2 {
            assert(line[at + 1] == text[0]);
        }
        assert(line_read(line, at, state) == line_read(line, at + own.len(), next));
        lemma_guarded_read(start, rest, back, next, quote);
        assert(next.token + rest =~= state.token + text);
    }
}

proof fn lemma_opened(front: Seq<char>, quote: char, back: Seq<char>, state: LineState)
    requires
        state.quote is None,
        quote == '\'' || quote == '"',
    ensures
        line_read(front + seq![quote] + back, front.len() as int, state) == line_read(
            front + seq![quote] + back,
            front.len() as int + 1,
            LineState { quote: Some(quote), ..state },
        ),
{
    let line = front + seq![quote] + back;
    assert(line[front.len() as int] == quote);
}

proof fn lemma_piece_read(front: Seq<char>, piece: Piece, back: Seq<char>, state: LineState)
    requires
        state.quote is None,
        piece.fair(),
        piece.comments() ==> state.token.len() > 0 || state.args.len() > 0,
    ensures
        line_read(front + piece.written() + back, front.len() as int, state) == line_read(
            front + piece.written() + back,
            (front.len() + piece.written().len()) as int,
            LineState { token: state.token + piece.text(), ..state },
        ),
{
    let line = front + piece.written() + back;
    let at = front.len() as int;
    match piece {
        Piece::Bare(text) => {
            lemma_bare_read(front, text, back, state);
        },
        Piece::Escaped(c) => {
            assert(line[at] == '\\');
            assert(line[at + 1] == c);
            assert(state.with(c).token =~= state.token + piece.text());
        },
        Piece::Quoted { quote, text } => {
            let body = guarded_in(text, quote);
            let start = front + seq![quote];
            let end = seq![quote] + back;
            assert(line =~= front + seq![quote] + (body + end));
            lemma_opened(front, quote, body + end, state);
            assert(line =~= start + body + end);
            let opened = LineState { quote: Some(quote), ..state };
            lemma_guarded_read(start, text, end, opened, quote);
            let close = (start.len() + body.len()) as int;
            assert(line[close] == quote);
            let read = LineState { token: state.token + text, ..opened };
            assert(LineState { quote: None, ..read } =~= LineState {
                token: state.token + text,
                ..state
            });
            assert(line_read(line, close, read) == line_read(
                line,
                close + 1,
                LineState { quote: None, ..read },
            ));
        },
    }
}

proof fn lemma_word_read(front: Seq<char>, word: Seq<Piece>, back: Seq<char>, state: LineState)
    requires
        state.quote is None,
        forall|i: int| 0 <= i < word.len() ==> (#[trigger] word[i]).fair(),
        state.args.len() > 0 || uncommented(word),
    ensures
        line_read(front + word_written(word) + back, front.len() as int, state) == line_read(
            front + word_written(word) + back,
            (front.len() + word_written(word).len()) as int,
            LineState { token: state.token + word_text(word), ..state },
        ),
    decreases word.len(),
{
    let line = front + word_written(word) + back;
    if word.len() == 0 {
        assert(state.token + word_text(word) =~= state.token);
    } else {
        let rest = word.skip(1);
        let own = word[0].written();
        let next = LineState { token: state.token + word[0].text(), ..state };
        assert(line =~= front + own + (word_written(rest) + back));
        lemma_piece_read(front, word[0], word_written(rest) + back, state);
        let start = front + own;
        assert(line =~= start + word_written(rest) + back);
        assert forall|i: int| 0 <= i < rest.len() implies (#[trigger] rest[i]).fair() && (
        uncommented(word) ==> !rest[i].comments()) by {
            assert(rest[i] == word[i + 1]);
        }
        lemma_word_read(start, rest, back, next);
        assert(next.token + word_text(rest) =~= state.token + word_text(word));
    }
}

proof fn lemma_blank_read(front: Seq<char>, gap: Seq<char>, back: Seq<char>, state: LineState)
    requires
        state.quote is None,
        blank(gap),
    ensures
        line_read(front + gap + back, front.len() as int, state) == line_read(
            front + gap + back,
            (front.len() + gap.len()) as int,
            if gap.len() > 0 {
                state.word_ended()
            } else {
                state
            },
        ),
    decreases gap.len(),
{
    let line = front + gap + back;
    let at = front.len() as int;
    if gap.len() > 0 {
        let rest = gap.skip(1);
        let start = front + seq![gap[0]];
        assert(line =~= start + rest + back);
        assert(line[at] == gap[0]);
        assert(gap[0] == ' ' || gap[0] == '\t');
        assert(line_read(line, at, state) == line_read(line, at + 1, state.word_ended()));
        assert forall|i: int| 0 <= i < rest.len() implies #[trigger] rest[i] == ' ' || rest[i]
            == '\t' by {
            assert(rest[i] == gap[i + 1]);
        }
        lemma_blank_read(start, rest, back, state.word_ended());
        assert(state.word_ended().word_ended() =~= state.word_ended());
    }
}

proof fn lemma_words_read(
    front: Seq<char>,
    words: Seq<Seq<Piece>>,
    gaps: Seq<Seq<char>>,
    back: Seq<char>,
    state: LineState,
)
    requires
        state.quote is None,
        state.token.len() == 0,
        fair_words(words, gaps),
        words.len() > 0 ==> state.args.len() > 0 || uncommented(words[0]),
    ensures
        line_read(front + words_written(words, gaps) + back, front.len() as int, state)
            == line_read(
            front + words_written(words, gaps) + back,
            (front.len() + words_written(words, gaps).len()) as int,
            LineState { args: state.args + word_texts(words), ..state },
        ),
    decreases words.len(),
{
    let line = front + words_written(words, gaps) + back;
    if words.len() == 0 {
        assert(state.args + word_texts(words) =~= state.args);
    } else {
        let word = words[0];
        let gap = gaps[0];
        let rest = words_written(words.skip(1), gaps.skip(1));
        assert(fair_word(word));
        assert(line =~= front + word_written(word) + (gap + rest + back));
        lemma_word_read(front, word, gap + rest + back, state);
        let read = LineState { token: state.token + word_text(word), ..state };
        assert(read.token =~= word_text(word));
        let middle = front + word_written(word);
        assert(line =~= middle + gap + (rest + back));
        lemma_blank_read(middle, gap, rest + back, read);
        let ended = LineState { args: state.args.push(word_text(word)), ..state };
        assert(read.word_ended() =~= ended) by {
            assert(state.token =~= seq![]);
        }
        let start = middle + gap;
        assert(line =~= start + rest + back);
        assert(fair_words(words.skip(1), gaps.skip(1))) by {
            assert forall|i: int| 0 <= i < words.skip(1).len() implies fair_word(
                #[trigger] words.skip(1)[i],
            ) by {
                assert(words.skip(1)[i] == words[i + 1]);
            }
            assert forall|i: int| 0 <= i < gaps.skip(1).len() implies blank(
                #[trigger] gaps.skip(1)[i],
            ) && gaps.skip(1)[i].len() > 0 by {
                assert(gaps.skip(1)[i] == gaps[i + 1]);
            }
        }
        lemma_words_read(start, words.skip(1), gaps.skip(1), back, ended);
        assert(ended.args + word_texts(words.skip(1)) =~= state.args + word_texts(words)) by {
            assert forall|i: int| 0 <= i < words.len() - 1 implies word_texts(words.skip(1))[i]
                == word_texts(words)[i + 1] by {
                assert(words.skip(1)[i] == words[i + 1]);
            }
        }
    }
}

/// The reading of a line up to some place behind words and gaps.
proof fn lemma_line_begun(
    lead: Seq<char>,
    words: Seq<Seq<Piece>>,
    gaps: Seq<Seq<char>>,
    back: Seq<char>,
)
    requires
        blank(lead),
        fair_words(words, gaps),
        words.len() > 0 ==> uncommented(words[0]),
    ensures
        line_read(lead + words_written(words, gaps) + back, 0, LineState::started())
            == line_read(
            lead + words_written(words, gaps) + back,
            (lead.len() + words_written(words, gaps).len()) as int,
            LineState { args: word_texts(words), token: seq![], quote: None },
        ),
{
    let all = words_written(words, gaps);
    let line = lead + all + back;
    let started = LineState::started();
    assert(line =~= Seq::<char>::empty() + lead + (all + back));
    lemma_blank_read(seq![], lead, all + back, started);
    assert(started.word_ended() =~= started);
    lemma_words_read(lead, words, gaps, back, started);
    assert(LineState { args: started.args + word_texts(words), ..started } =~= LineState {
        args: word_texts(words),
        token: seq![],
        quote: None,
    });
}

/// Words are read from a line as they were meant, however each stretch of them is
/// written and whatever blanks are between them: bare, in quotes of either kind with
/// the quotes of the other kind as they are, or with a backslash before a character.
/// The name of the program in front of them is left out.
pub proof fn law_written_words_read_back(
    lead: Seq<char>,
    words: Seq<Seq<Piece>>,
    gaps: Seq<Seq<char>>,
    last: Seq<Piece>,
    tail: Seq<char>,
)
    requires
        blank(lead),
        blank(tail),
        fair_words(words, gaps),
        fair_word(last),
        uncommented(words.push(last)[0]),
    ensures
        ({
            let texts = word_texts(words).push(word_text(last));
            let line = lead + words_written(words, gaps) + word_written(last) + tail;
            words_read(line) == Ok::<Option<Seq<Seq<char>>>, LineFault>(
                if texts[0] != "rmux"@ {
                    Some(texts)
                } else if texts.len() > 1 {
                    Some(texts.skip(1))
                } else {
                    None
                },
            )
        }),
{
    let texts = word_texts(words).push(word_text(last));
    let all = words_written(words, gaps);
    let own = word_written(last);
    let line = lead + all + own + tail;
    assert(line =~= lead + all + (own + tail));
    if words.len() > 0 {
        assert(words.push(last)[0] == words[0]);
    }
    lemma_line_begun(lead, words, gaps, own + tail);
    let begun = LineState { args: word_texts(words), token: seq![], quote: None };
    let front = lead + all;
    lemma_word_read(front, last, tail, begun);
    let read = LineState { token: begun.token + word_text(last), ..begun };
    assert(read.token =~= word_text(last));
    let middle = front + own;
    assert(line =~= middle + tail + Seq::<char>::empty());
    lemma_blank_read(middle, tail, seq![], read);
    assert(read.word_ended().args =~= texts);
    assert(read.word_ended().word_ended() =~= read.word_ended());
    assert(texts.remove(0) =~= texts.skip(1));
}

/// A line that is blank, or blank up to a `#`, has no words.
pub proof fn law_comment_has_no_words(lead: Seq<char>, comment: Seq<char>)
    requires
        blank(lead),
    ensures
        words_read(lead) == Ok::<Option<Seq<Seq<char>>>, LineFault>(None),
        words_read(lead + seq!['#'] + comment) == Ok::<Option<Seq<Seq<char>>>, LineFault>(None),
{
    let started = LineState::started();
    assert(started.word_ended() =~= started);
    let none = Seq::<char>::empty();
    assert(lead =~= none + lead + none);
    lemma_blank_read(none, lead, none, started);
    let line = lead + seq!['#'] + comment;
    assert(line =~= none + lead + (seq!['#'] + comment));
    lemma_blank_read(none, lead, seq!['#'] + comment, started);
    assert(line[lead.len() as int] == '#');
}

/// A line whose last quote is not closed, or that ends in a backslash, is refused
/// with the reason.
pub proof fn law_unfinished_line_is_refused(
    lead: Seq<char>,
    words: Seq<Seq<Piece>>,
    gaps: Seq<Seq<char>>,
    quote: char,
    text: Seq<char>,
)
    requires
        blank(lead),
        fair_words(words, gaps),
        words.len() > 0 ==> uncommented(words[0]),
        quote == '\'' || quote == '"',
    ensures
        ({
            let front = lead + words_written(words, gaps);
            &&& words_read(front + seq![quote] + guarded_in(text, quote)) == Err::<
                Option<Seq<Seq<char>>>,
                LineFault,
            >(LineFault::Unterminated(quote))
            &&& words_read(front + seq!['\\']) == Err::<Option<Seq<Seq<char>>>, LineFault>(
                LineFault::EndsWithEscape,
            )
        }),
{
    let front = lead + words_written(words, gaps);
    let begun = LineState { args: word_texts(words), token: seq![], quote: None };
    let body = guarded_in(text, quote);
    let open = front + seq![quote] + body;
    assert(open =~= front + (seq![quote] + body));
    lemma_line_begun(lead, words, gaps, seq![quote] + body);
    lemma_opened(front, quote, body, begun);
    let opened = LineState { quote: Some(quote), ..begun };
    let none = Seq::<char>::empty();
    assert(open =~= front + seq![quote] + body + none);
    lemma_guarded_read(front + seq![quote], text, none, opened, quote);
    let escaped = front + seq!['\\'];
    lemma_line_begun(lead, words, gaps, seq!['\\']);
    assert(escaped[front.len() as int] == '\\');
}

/// Lines with an end behind each: a line feed, or a carriage return and a line feed.
pub open spec fn lines_written(lines: Seq<Seq<char>>, wide: Seq<bool>) -> Seq<char>
    decreases lines.len(),
{
    if lines.len() == 0 {
        seq![]
    } else {
        lines[0] + (if wide[0] {
            seq!['\r', '\n']
        } else {
            seq!['\n']
        }) + lines_written(lines.skip(1), wide.skip(1))
    }
}

/// The first line of a text and the lines behind it.
proof fn lemma_first_line(own: Seq<char>, rest: Seq<char>)
    requires
        !own.contains('\n'),
    ensures
        lines_of(own + seq!['\n'] + rest) == seq![crate::source::without_return(own)] + lines_of(
            rest,
        ),
{
    let text = own + seq!['\n'] + rest;
    crate::text::lemma_split_text(own, '\n', rest);
    crate::text::lemma_position_of(text, '\n');
    assert(text[own.len() as int] == '\n');
    let end = crate::text::position_of(text, '\n') as int;
    assert(end < text.len());
    assert(text.take(end) == own && text.skip(end + 1) == rest);
}

/// A line that holds no line feed has none with a carriage return behind it either, and is
/// what is left without that.
proof fn lemma_returned(line: Seq<char>)
    requires
        !line.contains('\n'),
    ensures
        !(line + seq!['\r']).contains('\n'),
        crate::source::without_return(line + seq!['\r']) == line,
{
    let own = line + seq!['\r'];
    if own.contains('\n') {
        let i = choose|i: int| 0 <= i < own.len() && own[i] == '\n';
        assert(i < line.len());
        assert(line[i] == '\n');
    }
    assert(own.last() == '\r');
    assert(own.drop_last() =~= line);
}

/// Lines are read from a text as they were written, whichever way each of them is
/// ended, and whether or not the last one is.
#[verifier::spinoff_prover]
#[verifier::rlimit(40)]
pub proof fn law_lines_read_back(lines: Seq<Seq<char>>, wide: Seq<bool>, last: Seq<char>)
    requires
        lines.len() == wide.len(),
        forall|i: int|
            0 <= i < lines.len() ==> !(#[trigger] lines[i]).contains('\n') && !(lines[i].len() > 0
                && lines[i].last() == '\r'),
        !last.contains('\n'),
    ensures
        lines_of(lines_written(lines, wide) + last) == if last.len() > 0 {
            lines.push(last)
        } else {
            lines
        },
    decreases lines.len(),
{
    let text = lines_written(lines, wide) + last;
    if lines.len() == 0 {
        assert(text =~= last);
        crate::text::lemma_position_of(last, '\n');
        if last.len() > 0 {
            assert(lines_of(text) =~= lines.push(last));
        } else {
            assert(lines_of(text) =~= lines);
        }
    } else {
        let line = lines[0];
        let own = if wide[0] {
            line + seq!['\r']
        } else {
            line
        };
        let others = lines.skip(1);
        let rest = lines_written(others, wide.skip(1)) + last;
        assert(text =~= own + seq!['\n'] + rest);
        lemma_returned(line);
        assert(crate::source::without_return(own) == line);
        lemma_first_line(own, rest);
        assert forall|i: int| 0 <= i < others.len() implies !(#[trigger] others[i]).contains('\n')
            && !(others[i].len() > 0 && others[i].last() == '\r') by {
            assert(others[i] == lines[i + 1]);
        }
        law_lines_read_back(others, wide.skip(1), last);
        assert(seq![line] + others =~= lines);
        assert(seq![line] + others.push(last) =~= lines.push(last));
    }
}

/// What is told of a line that is refused names the quote that is not closed, or the escape
/// at its end.
pub proof fn law_line_faults_are_told(error: Error)
    ensures
        LineFault::Unterminated('"').told_by(error) <==> error == (Error::UnterminatedQuote {
            double: true,
        }),
        LineFault::Unterminated('\'').told_by(error) <==> error == (Error::UnterminatedQuote {
            double: false,
        }),
        LineFault::EndsWithEscape.told_by(error) <==> error == Error::LineEndsWithEscape,
        (Error::UnterminatedQuote { double: true }).text().contains('"'),
        !(Error::UnterminatedQuote { double: false }).text().contains('"'),
{
    reveal_strlit("unterminated '\"' quote");
    reveal_strlit("unterminated '\\'' quote");
    assert("unterminated '\"' quote"@[14] == '"');
}

} // verus!
