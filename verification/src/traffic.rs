//! Samples from the core's traffic stream.
use vstd::prelude::*;
use vstd::string::*;
use vstd::utf8::encode_utf8;

use crate::api::Traffic;
use crate::text::{
    encoded_text_is_read_back, from_chars, is_white_space, lossy_text, read_lossy, to_chars, trim,
    trimmed,
};

verus! {

/// How many bytes of the stream are read at most in search of a sample.
pub const MAX_STREAM_BUFFER: usize = 65536;

/// Where the first line of a text ends.
pub open spec fn line_end(text: Seq<char>) -> nat
    decreases text.len(),
{
    if text.len() == 0 || text[0] == '\n' {
        0
    } else {
        1 + line_end(text.drop_first())
    }
}

/// A line that a line feed ended, without the carriage return that belongs to
/// the line feed.
pub open spec fn without_return(line: Seq<char>) -> Seq<char> {
    if line.len() > 0 && line.last() == '\r' {
        line.drop_last()
    } else {
        line
    }
}

/// The lines of a text. A line ends at a line feed, with or without a carriage
/// return before it; the last one may lack it.
pub open spec fn lines(text: Seq<char>) -> Seq<Seq<char>>
    decreases text.len(),
{
    let end = line_end(text) as int;
    if text.len() == 0 {
        Seq::empty()
    } else if end >= text.len() {
        seq![text]
    } else {
        seq![without_return(text.take(end))] + lines(text.skip(end + 1))
    }
}

/// What is left of a line behind the prefix of server-sent events.
pub open spec fn without_prefix(line: Seq<char>) -> Seq<char> {
    if "data:"@.is_prefix_of(line) {
        line.skip(5)
    } else {
        line
    }
}

/// The part of a line that may hold a sample.
pub open spec fn candidate(line: Seq<char>) -> Seq<char> {
    trimmed(without_prefix(line))
}

/// Whether a text ends in a closing brace.
pub open spec fn closed_by_brace(text: Seq<char>) -> bool {
    text.len() > 0 && text.last() == '}'
}

/// The outcome of the first line that decides: one that holds a sample, or one
/// that is complete and holds none. Blank and incomplete lines decide nothing.
pub open spec fn first_in_lines<E>(
    rows: Seq<Seq<char>>,
    parse: spec_fn(Seq<char>) -> Result<Traffic, E>,
) -> Option<Result<Traffic, E>>
    decreases rows.len(),
{
    if rows.len() == 0 {
        None
    } else if candidate(rows[0]).len() == 0 {
        first_in_lines(rows.drop_first(), parse)
    } else {
        match parse(candidate(rows[0])) {
            Ok(traffic) => Some(Ok(traffic)),
            Err(error) => if closed_by_brace(rows[0]) {
                Some(Err(error))
            } else {
                first_in_lines(rows.drop_first(), parse)
            },
        }
    }
}

/// The first sample in a text, where `parse` reads one sample: that of the
/// first line that decides; where none does, the whole text, once it ends in a
/// closing brace.
pub open spec fn first_traffic<E>(
    text: Seq<char>,
    parse: spec_fn(Seq<char>) -> Result<Traffic, E>,
) -> Result<Option<Traffic>, E> {
    match first_in_lines(lines(text), parse) {
        Some(Ok(traffic)) => Ok(Some(traffic)),
        Some(Err(error)) => Err(error),
        None => if closed_by_brace(candidate(text)) {
            match parse(candidate(text)) {
                Ok(traffic) => Ok(Some(traffic)),
                Err(error) => Err(error),
            }
        } else {
            Ok(None)
        },
    }
}

/// Whether the function `parse` computes `meaning`.
pub open spec fn computes<E, F: Fn(&str) -> Result<Traffic, E>>(
    parse: F,
    meaning: spec_fn(Seq<char>) -> Result<Traffic, E>,
) -> bool {
    forall|text: &str, outcome: Result<Traffic, E>| #[trigger]
        call_ensures(parse, (text,), outcome) ==> outcome == meaning(text@)
}

proof fn line_end_range(text: Seq<char>)
    ensures
        line_end(text) <= text.len(),
        line_end(text) < text.len() ==> text[line_end(text) as int] == '\n',
        forall|i: int| 0 <= i < line_end(text) ==> text[i] != '\n',
    decreases text.len(),
{
    if text.len() > 0 && text[0] != '\n' {
        let rest = text.drop_first();
        line_end_range(rest);
        assert forall|i: int| 0 <= i < line_end(text) implies text[i] != '\n' by {
            if i > 0 {
                assert(rest[i - 1] == text[i]);
            }
        }
        if line_end(text) < text.len() {
            assert(rest[line_end(rest) as int] == text[line_end(text) as int]);
        }
    }
}

proof fn line_end_is(text: Seq<char>, at: int)
    requires
        0 <= at <= text.len(),
        at < text.len() ==> text[at] == '\n',
        forall|i: int| 0 <= i < at ==> text[i] != '\n',
    ensures
        line_end(text) == at,
{
    line_end_range(text);
}

fn strip_prefix(chars: &Vec<char>, start: usize, end: usize) -> (rest: String)
    requires
        start <= end <= chars@.len(),
    ensures
        rest@ == without_prefix(chars@.subrange(start as int, end as int)),
{
    proof {
        reveal_strlit("data:");
    }
    let ghost line = chars@.subrange(start as int, end as int);
    if end - start >= 5 && chars[start] == 'd' && chars[start + 1] == 'a' && chars[start + 2]
        == 't' && chars[start + 3] == 'a' && chars[start + 4] == ':' {
        assert("data:"@ =~= line.take(5));
        let rest = from_chars(chars, start + 5, end);
        assert(rest@ =~= line.skip(5));
        rest
    } else {
        assert(!("data:"@.is_prefix_of(line))) by {
            if "data:"@.is_prefix_of(line) {
                assert("data:"@ =~= line.take(5));
                assert(line[0] == line.take(5)[0] && line[1] == line.take(5)[1] && line[2]
                    == line.take(5)[2] && line[3] == line.take(5)[3] && line[4] == line.take(5)[4]);
            }
        }
        from_chars(chars, start, end)
    }
}

/// Looks for the first sample in a text. `parse` reads one sample from a JSON
/// text. The result is `Ok(None)` as long as more has to be read.
pub fn first_sample<E, F: Fn(&str) -> Result<Traffic, E>>(text: &str, parse: F) -> (found: Result<
    Option<Traffic>,
    E,
>)
    requires
        forall|item: &str| call_requires(parse, (item,)),
    ensures
        forall|meaning: spec_fn(Seq<char>) -> Result<Traffic, E>| #[trigger]
            computes(parse, meaning) ==> found == first_traffic(text@, meaning),
{
    let chars = to_chars(text);
    let n = chars.len();
    let mut start: usize = 0;
    assert(chars@.skip(0) =~= chars@);
    while start < n
        invariant
            start <= n == chars@.len(),
            chars@ == text@,
            forall|item: &str| call_requires(parse, (item,)),
            forall|meaning: spec_fn(Seq<char>) -> Result<Traffic, E>| #[trigger]
                computes(parse, meaning) ==> first_in_lines(lines(chars@), meaning)
                    == first_in_lines(lines(chars@.skip(start as int)), meaning),
        decreases n - start,
    {
        let ghost rest = chars@.skip(start as int);
        let mut feed = start;
        while feed < n && chars[feed] != '\n'
            invariant
                start <= feed <= n == chars@.len(),
                forall|i: int| start <= i < feed ==> chars@[i] != '\n',
            decreases n - feed,
        {
            feed += 1;
        }
        proof {
            assert forall|i: int| 0 <= i < feed - start implies rest[i] != '\n' by {
                assert(rest[i] == chars@[start + i]);
            }
            line_end_is(rest, feed - start);
        }
        let end: usize = if feed < n && feed > start && chars[feed - 1] == '\r' {
            feed - 1
        } else {
            feed
        };
        let next: usize = if feed < n {
            feed + 1
        } else {
            n
        };
        let ghost row = chars@.subrange(start as int, end as int);
        proof {
            let later = lines(chars@.skip(next as int));
            if feed < n {
                assert(rest.take(feed - start) =~= chars@.subrange(start as int, feed as int));
                assert(without_return(rest.take(feed - start)) =~= row);
                assert(rest.skip(feed - start + 1) =~= chars@.skip(next as int));
                assert(lines(rest) =~= seq![row] + later);
            } else {
                assert(row =~= rest);
                assert(later =~= Seq::empty());
                assert(lines(rest) =~= seq![row] + later);
            }
            assert(lines(rest)[0] == row);
            assert(lines(rest).drop_first() =~= later);
        }
        let line_text = strip_prefix(&chars, start, end);
        let item = trim(line_text.as_str());
        if !item.as_str().is_empty() {
            match parse(item.as_str()) {
                Ok(traffic) => {
                    return Ok(Some(traffic));
                },
                Err(error) => {
                    if end > start && chars[end - 1] == '}' {
                        assert(closed_by_brace(row));
                        return Err(error);
                    }
                    assert(!closed_by_brace(row));
                },
            }
        }
        start = next;
    }
    assert(chars@.skip(n as int) =~= Seq::empty());
    let whole = strip_prefix(&chars, 0, n);
    assert(chars@.subrange(0, n as int) =~= chars@);
    let item = trim(whole.as_str());
    let item_chars = to_chars(item.as_str());
    if item_chars.len() > 0 && item_chars[item_chars.len() - 1] == '}' {
        match parse(item.as_str()) {
            Ok(traffic) => Ok(Some(traffic)),
            Err(error) => Err(error),
        }
    } else {
        Ok(None)
    }
}

/// Looks for the first sample in what has been read of the stream. `parse`
/// reads one sample from a JSON text. The result is `Ok(None)` as long as more
/// has to be read.
pub fn parse_first_traffic<E, F: Fn(&str) -> Result<Traffic, E>>(bytes: &[u8], parse: F) -> (found:
    Result<Option<Traffic>, E>)
    requires
        forall|text: &str| call_requires(parse, (text,)),
    ensures
        forall|meaning: spec_fn(Seq<char>) -> Result<Traffic, E>| #[trigger]
            computes(parse, meaning) ==> found == first_traffic(lossy_text(bytes@), meaning),
{
    let text = read_lossy(bytes);
    first_sample(text.as_str(), parse)
}

/// Why a stream gave no sample. `E` is what is wrong with the text of one.
#[derive(Debug, Clone, Copy, PartialEq, Eq)]
pub enum TrafficError<E> {
    /// A complete text is no sample.
    Invalid(E),
    /// No sample was found in as many bytes as are read at most.
    TooLong,
    /// The stream ended before a sample.
    Ended,
}

impl<E> TrafficError<E> {
    /// The error in words, where the text of a sample is not at fault.
    pub fn message(&self) -> (text: Option<String>)
        ensures
            *self is Invalid <==> text is None,
            *self is TooLong ==> text is Some && text->0@
                == "Mihomo traffic response exceeded 64 KiB"@,
            *self is Ended ==> text is Some && text->0@
                == "Mihomo traffic stream ended before returning a sample"@,
    {
        match self {
            TrafficError::Invalid(_) => None,
            TrafficError::TooLong => Some("Mihomo traffic response exceeded 64 KiB".to_owned()),
            TrafficError::Ended => Some(
                "Mihomo traffic stream ended before returning a sample".to_owned(),
            ),
        }
    }
}

/// What has been read of a traffic stream. The stream stays open, so it is
/// read only until the first sample is complete.
#[derive(Debug)]
pub struct TrafficStream {
    buffer: Vec<u8>,
}

impl View for TrafficStream {
    type V = Seq<u8>;

    closed spec fn view(&self) -> Seq<u8> {
        self.buffer@
    }
}

/// What follows from the bytes read so far: a sample, an error, or that more
/// has to be read.
pub open spec fn stream_outcome<E>(
    read: Seq<u8>,
    parse: spec_fn(Seq<char>) -> Result<Traffic, E>,
) -> Result<Option<Traffic>, TrafficError<E>> {
    match first_traffic(lossy_text(read), parse) {
        Err(error) => Err(TrafficError::Invalid(error)),
        Ok(Some(traffic)) => Ok(Some(traffic)),
        Ok(None) => if read.len() > MAX_STREAM_BUFFER {
            Err(TrafficError::TooLong)
        } else {
            Ok(None)
        },
    }
}

impl TrafficStream {
    /// A stream of which nothing has been read.
    pub fn new() -> (stream: TrafficStream)
        ensures
            stream@ == Seq::<u8>::empty(),
    {
        TrafficStream { buffer: Vec::new() }
    }

    /// Takes in the next bytes of the stream. The result is `Ok(None)` as long
    /// as more has to be read.
    pub fn feed<E, F: Fn(&str) -> Result<Traffic, E>>(&mut self, chunk: &[u8], parse: F) -> (found:
        Result<Option<Traffic>, TrafficError<E>>)
        requires
            forall|text: &str| call_requires(parse, (text,)),
        ensures
            final(self)@ == old(self)@ + chunk@,
            forall|meaning: spec_fn(Seq<char>) -> Result<Traffic, E>| #[trigger]
                computes(parse, meaning) ==> found == stream_outcome(final(self)@, meaning),
    {
        self.buffer.extend_from_slice(chunk);
        assert(self.buffer@ =~= old(self)@ + chunk@);
        match parse_first_traffic(self.buffer.as_slice(), parse) {
            Err(error) => Err(TrafficError::Invalid(error)),
            Ok(Some(traffic)) => Ok(Some(traffic)),
            Ok(None) => {
                if self.buffer.len() > MAX_STREAM_BUFFER {
                    Err(TrafficError::TooLong)
                } else {
                    Ok(None)
                }
            },
        }
    }

    /// What the end of the stream means before a sample was found.
    pub fn end<E>(self) -> (error: TrafficError<E>)
        ensures
            error is Ended,
    {
        TrafficError::Ended
    }
}

proof fn end_space_is_trimmed(text: Seq<char>, space: char)
    requires
        is_white_space(space),
    ensures
        trimmed(text.push(space)) == trimmed(text),
    decreases text.len(),
{
    let longer = text.push(space);
    if text.len() > 0 && is_white_space(text[0]) {
        end_space_is_trimmed(text.drop_first(), space);
        assert(longer.drop_first() =~= text.drop_first().push(space));
    } else if text.len() > 0 {
        assert(longer.drop_last() =~= text);
    } else {
        assert(longer.drop_first() =~= text);
    }
}

proof fn return_is_no_part(line: Seq<char>)
    ensures
        candidate(without_return(line)) == candidate(line),
{
    reveal_strlit("data:");
    let prefix = "data:"@;
    if line.len() > 0 && line.last() == '\r' {
        let front = line.drop_last();
        if prefix.is_prefix_of(line) {
            assert(line[4] == prefix[4]);
            assert(front.len() >= 5);
            assert(front.subrange(0, 5) =~= line.subrange(0, 5));
            assert(line.skip(5) =~= front.skip(5).push('\r'));
            end_space_is_trimmed(front.skip(5), '\r');
        } else {
            if prefix.is_prefix_of(front) {
                assert(front.subrange(0, 5) =~= line.subrange(0, 5));
            }
            assert(line =~= front.push('\r'));
            end_space_is_trimmed(front, '\r');
        }
    }
}

proof fn first_line_of(line: Seq<char>, rest: Seq<char>)
    requires
        !line.contains('\n'),
    ensures
        lines(line.push('\n') + rest).len() > 0,
        lines(line.push('\n') + rest)[0] == without_return(line),
{
    let text = line.push('\n') + rest;
    assert(text[line.len() as int] == '\n');
    assert forall|i: int| 0 <= i < line.len() implies text[i] != '\n' by {
        assert(text[i] == line[i]);
        assert(line.contains(line[i]));
    }
    line_end_is(text, line.len() as int);
    assert(text.take(line.len() as int) =~= line);
}

/// A sample on a finished first line is found, whatever follows it.
pub proof fn finished_line_is_read<E>(
    line: Seq<char>,
    rest: Seq<char>,
    parse: spec_fn(Seq<char>) -> Result<Traffic, E>,
    traffic: Traffic,
)
    requires
        !line.contains('\n'),
        candidate(line).len() > 0,
        parse(candidate(line)) == Ok::<Traffic, E>(traffic),
    ensures
        first_traffic(line.push('\n') + rest, parse) == Ok::<Option<Traffic>, E>(Some(traffic)),
{
    first_line_of(line, rest);
    return_is_no_part(line);
}

/// A first line that ends in a closing brace and is no sample is an error,
/// whatever follows it.
pub proof fn broken_line_is_refused<E>(
    line: Seq<char>,
    rest: Seq<char>,
    parse: spec_fn(Seq<char>) -> Result<Traffic, E>,
    error: E,
)
    requires
        !line.contains('\n'),
        closed_by_brace(line),
        candidate(line).len() > 0,
        parse(candidate(line)) == Err::<Traffic, E>(error),
    ensures
        first_traffic(line.push('\n') + rest, parse) == Err::<Option<Traffic>, E>(error),
{
    first_line_of(line, rest);
}

/// As long as no line is a sample or ends in a closing brace, and neither does
/// the whole, more is read.
pub proof fn incomplete_text_waits<E>(
    text: Seq<char>,
    parse: spec_fn(Seq<char>) -> Result<Traffic, E>,
)
    requires
        forall|i: int|
            0 <= i < lines(text).len() ==> !closed_by_brace(#[trigger] lines(text)[i]) && parse(
                candidate(lines(text)[i]),
            ) is Err,
        !closed_by_brace(candidate(text)),
    ensures
        first_traffic(text, parse) == Ok::<Option<Traffic>, E>(None),
{
    nothing_decides(lines(text), parse);
}

proof fn nothing_decides<E>(
    rows: Seq<Seq<char>>,
    parse: spec_fn(Seq<char>) -> Result<Traffic, E>,
)
    requires
        forall|i: int|
            0 <= i < rows.len() ==> !closed_by_brace(#[trigger] rows[i]) && parse(
                candidate(rows[i]),
            ) is Err,
    ensures
        first_in_lines(rows, parse) is None,
    decreases rows.len(),
{
    if rows.len() > 0 {
        assert(!closed_by_brace(rows[0]));
        let rest = rows.drop_first();
        assert forall|i: int| 0 <= i < rest.len() implies !closed_by_brace(#[trigger] rest[i])
            && parse(candidate(rest[i])) is Err by {
            assert(rest[i] == rows[i + 1]);
        }
        nothing_decides(rest, parse);
    }
}

/// What is read of a stream is handed on as it was found: a sample with both
/// its rates, or what is wrong with a complete text. Where nothing was found
/// yet, more is read, until there are more than 65536 bytes.
pub proof fn stream_hands_on_what_it_finds<E>(
    read: Seq<u8>,
    parse: spec_fn(Seq<char>) -> Result<Traffic, E>,
    up: u64,
    down: u64,
    error: E,
)
    ensures
        first_traffic(lossy_text(read), parse) == Ok::<Option<Traffic>, E>(
            Some(Traffic { up, down }),
        ) ==> (stream_outcome(read, parse) matches Ok(Some(found)) && found.up == up && found.down
            == down),
        first_traffic(lossy_text(read), parse) == Err::<Option<Traffic>, E>(error)
            ==> stream_outcome(read, parse) == Err::<Option<Traffic>, TrafficError<E>>(
            TrafficError::Invalid(error),
        ),
        first_traffic(lossy_text(read), parse) == Ok::<Option<Traffic>, E>(None) && read.len()
            <= 65536 ==> stream_outcome(read, parse) == Ok::<Option<Traffic>, TrafficError<E>>(
            None,
        ),
        first_traffic(lossy_text(read), parse) == Ok::<Option<Traffic>, E>(None) && read.len()
            > 65536 ==> stream_outcome(read, parse) == Err::<Option<Traffic>, TrafficError<E>>(
            TrafficError::TooLong,
        ),
{
}

/// A sample on a finished first line of the stream is what the stream gives,
/// with both its rates unchanged, whatever follows it.
pub proof fn finished_line_ends_the_stream<E>(
    line: Seq<char>,
    rest: Seq<char>,
    parse: spec_fn(Seq<char>) -> Result<Traffic, E>,
    traffic: Traffic,
)
    requires
        !line.contains('\n'),
        trimmed(line).len() > 0,
        !"data:"@.is_prefix_of(line),
        parse(trimmed(line)) == Ok::<Traffic, E>(traffic),
    ensures
        stream_outcome(encode_utf8(line.push('\n') + rest), parse) matches Ok(Some(found))
            && found.up == traffic.up && found.down == traffic.down,
{
    encoded_text_is_read_back(line.push('\n') + rest);
    finished_line_is_read(line, rest, parse, traffic);
}

/// The same holds of a line with the prefix of server-sent events.
pub proof fn prefixed_line_ends_the_stream<E>(
    item: Seq<char>,
    rest: Seq<char>,
    parse: spec_fn(Seq<char>) -> Result<Traffic, E>,
    traffic: Traffic,
)
    requires
        !item.contains('\n'),
        trimmed(item).len() > 0,
        parse(trimmed(item)) == Ok::<Traffic, E>(traffic),
    ensures
        stream_outcome(encode_utf8("data:"@ + item + seq!['\n'] + rest), parse) matches Ok(
            Some(found),
        ) && found.up == traffic.up && found.down == traffic.down,
{
    reveal_strlit("data:");
    let line = "data:"@ + item;
    assert(line.skip(5) =~= item);
    assert("data:"@ =~= line.subrange(0, 5));
    assert(!line.contains('\n')) by {
        if line.contains('\n') {
            let i = choose|i: int| 0 <= i < line.len() && line[i] == '\n';
            if i >= 5 {
                assert(item[i - 5] == '\n');
                assert(item.contains('\n'));
            }
        }
    }
    assert("data:"@ + item + seq!['\n'] + rest =~= line.push('\n') + rest);
    encoded_text_is_read_back(line.push('\n') + rest);
    finished_line_is_read(line, rest, parse, traffic);
}

/// The part of a line that may hold a sample is the line without white space
/// at its ends, and without the prefix of server-sent events if it has it.
pub proof fn prefix_is_no_part(line: Seq<char>)
    ensures
        candidate("data:"@ + line) == trimmed(line),
        !"data:"@.is_prefix_of(line) ==> candidate(line) == trimmed(line),
        closed_by_brace(line) <==> line.len() > 0 && line[line.len() - 1] == '}',
{
    reveal_strlit("data:");
    let whole = "data:"@ + line;
    assert("data:"@ =~= whole.subrange(0, 5));
    assert(whole.skip(5) =~= line);
}

/// A text is cut into lines at its line feeds, one line after the other; a
/// carriage return before a line feed belongs to it.
pub proof fn texts_are_cut_at_line_feeds(line: Seq<char>, rest: Seq<char>)
    requires
        !line.contains('\n'),
    ensures
        line.len() > 0 ==> lines(line) == seq![line],
        lines(Seq::empty()).len() == 0,
        lines(line.push('\n') + rest) == seq![without_return(line)] + lines(rest),
        line.len() > 0 && line.last() == '\r' ==> without_return(line) == line.drop_last(),
        line.len() == 0 || line.last() != '\r' ==> without_return(line) == line,
{
    assert forall|i: int| 0 <= i < line.len() implies line[i] != '\n' by {
        assert(line.contains(line[i]));
    }
    line_end_is(line, line.len() as int);
    let text = line.push('\n') + rest;
    assert(text[line.len() as int] == '\n');
    assert forall|i: int| 0 <= i < line.len() implies text[i] != '\n' by {
        assert(text[i] == line[i]);
    }
    line_end_is(text, line.len() as int);
    assert(text.take(line.len() as int) =~= line);
    assert(text.skip(line.len() as int + 1) =~= rest);
}

/// A blank line, or one that is no sample and does not end in a closing brace,
/// decides nothing: the lines behind it do.
pub proof fn undecided_line_is_passed<E>(
    line: Seq<char>,
    rest: Seq<char>,
    parse: spec_fn(Seq<char>) -> Result<Traffic, E>,
)
    requires
        !line.contains('\n'),
        candidate(line).len() == 0 || (parse(candidate(line)) is Err && !closed_by_brace(
            without_return(line),
        )),
    ensures
        first_in_lines(lines(line.push('\n') + rest), parse) == first_in_lines(lines(rest), parse),
{
    texts_are_cut_at_line_feeds(line, rest);
    return_is_no_part(line);
    let all = lines(line.push('\n') + rest);
    assert(all[0] == without_return(line));
    assert(all.drop_first() =~= lines(rest));
}

/// Where a line decides, it decides for the whole. Where none does, the whole
/// text is taken once it ends in a closing brace, as a sample or as an error.
pub proof fn whole_text_is_taken_last<E>(
    text: Seq<char>,
    parse: spec_fn(Seq<char>) -> Result<Traffic, E>,
)
    ensures
        first_in_lines(lines(text), parse) matches Some(Ok(traffic)) ==> first_traffic(text, parse)
            == Ok::<Option<Traffic>, E>(Some(traffic)),
        first_in_lines(lines(text), parse) matches Some(Err(error)) ==> first_traffic(text, parse)
            == Err::<Option<Traffic>, E>(error),
        first_in_lines(lines(text), parse) is None ==> {
            let whole = candidate(text);
            let closed = whole.len() > 0 && whole.last() == '}';
            &&& !closed ==> first_traffic(text, parse) == Ok::<Option<Traffic>, E>(None)
            &&& closed && parse(whole) is Ok ==> first_traffic(text, parse) == Ok::<
                Option<Traffic>,
                E,
            >(Some(parse(whole)->Ok_0))
            &&& closed && parse(whole) is Err ==> first_traffic(text, parse) == Err::<
                Option<Traffic>,
                E,
            >(parse(whole)->Err_0)
        },
{
}

/// A function computes what it returns for every text: where all that it can
/// return is what is meant, it computes that.
pub proof fn returned_results_are_computed<E, F: Fn(&str) -> Result<Traffic, E>>(
    parse: F,
    meaning: spec_fn(Seq<char>) -> Result<Traffic, E>,
)
    requires
        forall|text: &str, outcome: Result<Traffic, E>| #[trigger]
            call_ensures(parse, (text,), outcome) ==> outcome == meaning(text@),
    ensures
        computes(parse, meaning),
{
}

/// What a function computes is what it returns, for every text.
pub proof fn computed_results_are_returned<E, F: Fn(&str) -> Result<Traffic, E>>(
    parse: F,
    meaning: spec_fn(Seq<char>) -> Result<Traffic, E>,
    text: &str,
    outcome: Result<Traffic, E>,
)
    requires
        computes(parse, meaning),
        call_ensures(parse, (text,), outcome),
    ensures
        outcome == meaning(text@),
{
}

/// Lines decide in their order. A blank line decides nothing; a sample decides;
/// what is no sample is an error where the line ends in a closing brace, and
/// decides nothing where it does not. Without lines nothing is decided.
pub proof fn lines_decide_in_order<E>(
    row: Seq<char>,
    rest: Seq<Seq<char>>,
    parse: spec_fn(Seq<char>) -> Result<Traffic, E>,
)
    ensures
        first_in_lines(Seq::empty(), parse) is None,
        ({
            let decided = first_in_lines(seq![row] + rest, parse);
            let item = candidate(row);
            let closed = row.len() > 0 && row[row.len() - 1] == '}';
            &&& item.len() == 0 ==> decided == first_in_lines(rest, parse)
            &&& item.len() > 0 ==> (parse(item) matches Ok(traffic) ==> decided == Some(
                Ok::<Traffic, E>(traffic),
            ))
            &&& item.len() > 0 && closed ==> (parse(item) matches Err(error) ==> decided == Some(
                Err::<Traffic, E>(error),
            ))
            &&& item.len() > 0 && !closed && parse(item) is Err ==> decided == first_in_lines(
                rest,
                parse,
            )
        }),
{
    assert((seq![row] + rest).drop_first() =~= rest);
}

} // verus!
