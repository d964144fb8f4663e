use crate::ranks::Rank;
use bytes::{Buf, BytesMut};
use vstd::prelude::*;
use vstd::slice::slice_subrange;
use vstd::string::{StrSliceExecFns, StringExecFns};
use vstd::utf8::{decode_utf8, valid_utf8};

verus! {

/// What the console tells a player's session.
#[derive(Clone, Copy, Debug, PartialEq, Eq, Structural)]
pub enum ConsolePacket {
    UpdateRank(Rank),
}

/// Why the console could not read commands.
#[derive(Clone, Copy, Debug, PartialEq, Eq, Structural)]
pub enum ConsoleFutureError {
    RecvDropped,
    StdinFailedRead,
    FailedUtfRead,
}

impl ConsoleFutureError {
    /// The error in words.
    pub fn message(&self) -> (text: &'static str)
        ensures
            text@ == match *self {
                ConsoleFutureError::RecvDropped => "Console recv dropped"@,
                ConsoleFutureError::StdinFailedRead => "Stdin failed to read"@,
                ConsoleFutureError::FailedUtfRead => "Failed to read utf8"@,
            },
    {
        match self {
            ConsoleFutureError::RecvDropped => "Console recv dropped",
            ConsoleFutureError::StdinFailedRead => "Stdin failed to read",
            ConsoleFutureError::FailedUtfRead => "Failed to read utf8",
        }
    }
}

/// What a `rank` command asks for.
#[derive(Clone, Debug, PartialEq, Eq)]
pub enum RankRequest {
    /// The command did not have exactly two arguments.
    Usage,
    /// The second argument names no rank.
    InvalidRank,
    /// Give the player of this name this rank.
    Update { player: String, rank: Rank },
}

/// A command of the console.
#[derive(Clone, Debug, PartialEq, Eq)]
pub enum ConsoleCommand {
    Rank(RankRequest),
    Help,
    Stop,
    Unrecognized,
}

/// A [`RankRequest`] as a mathematical value.
pub enum RankRequestView {
    Usage,
    InvalidRank,
    Update { player: Seq<char>, rank: Rank },
}

/// A [`ConsoleCommand`] as a mathematical value.
pub enum ConsoleCommandView {
    Rank(RankRequestView),
    Help,
    Stop,
    Unrecognized,
}

impl View for RankRequest {
    type V = RankRequestView;

    open spec fn view(&self) -> RankRequestView {
        match self {
            RankRequest::Usage => RankRequestView::Usage,
            RankRequest::InvalidRank => RankRequestView::InvalidRank,
            RankRequest::Update { player, rank } => RankRequestView::Update {
                player: player@,
                rank: *rank,
            },
        }
    }
}

impl View for ConsoleCommand {
    type V = ConsoleCommandView;

    open spec fn view(&self) -> ConsoleCommandView {
        match self {
            ConsoleCommand::Rank(request) => ConsoleCommandView::Rank(request@),
            ConsoleCommand::Help => ConsoleCommandView::Help,
            ConsoleCommand::Stop => ConsoleCommandView::Stop,
            ConsoleCommand::Unrecognized => ConsoleCommandView::Unrecognized,
        }
    }
}

/// The end of the word that begins at `from`: the place of the next space,
/// or the end of the text.
pub open spec fn word_end(text: Seq<char>, from: int) -> int
    decreases text.len() - from,
{
    if from >= text.len() || text[from] == ' ' {
        from
    } else {
        word_end(text, from + 1)
    }
}

/// The text from `from` on, cut at every space. Two spaces in a row have
/// an empty word between them, and a space at the end has one behind it.
pub open spec fn words(text: Seq<char>, from: int) -> Seq<Seq<char>>
    decreases text.len() - from,
{
    let end = word_end(text, from);
    if end >= text.len() {
        seq![text.subrange(from, text.len() as int)]
    } else {
        proof {
            lemma_word_end_not_before(text, from);
        }
        seq![text.subrange(from, end)] + words(text, end + 1)
    }
}

/// A word does not end before it begins.
pub proof fn lemma_word_end_not_before(text: Seq<char>, from: int)
    ensures
        from <= word_end(text, from),
    decreases text.len() - from,
{
    if from < text.len() && text[from] != ' ' {
        lemma_word_end_not_before(text, from + 1);
    }
}

/// The rank that the word names.
pub open spec fn rank_named(word: Seq<char>) -> Option<Rank> {
    if word == "default"@ {
        Some(Rank::Default)
    } else if word == "staff"@ {
        Some(Rank::Staff)
    } else if word == "owner"@ {
        Some(Rank::Owner)
    } else {
        None
    }
}

/// What a `rank` command with these arguments asks for.
pub open spec fn rank_request(args: Seq<Seq<char>>) -> RankRequestView {
    if args.len() != 2 {
        RankRequestView::Usage
    } else {
        match rank_named(args[1]) {
            Some(rank) => RankRequestView::Update { player: args[0], rank },
            None => RankRequestView::InvalidRank,
        }
    }
}

/// The command that a line of the console holds: its first word names the
/// command, the words behind it are the arguments.
pub open spec fn parsed_command(line: Seq<char>) -> ConsoleCommandView {
    let parts = words(line, 0);
    if parts[0] == "rank"@ {
        ConsoleCommandView::Rank(rank_request(parts.skip(1)))
    } else if parts[0] == "help"@ {
        ConsoleCommandView::Help
    } else if parts[0] == "stop"@ {
        ConsoleCommandView::Stop
    } else {
        ConsoleCommandView::Unrecognized
    }
}

proof fn lemma_word_end_bounds(text: Seq<char>, from: int)
    requires
        0 <= from <= text.len(),
    ensures
        from <= word_end(text, from) <= text.len(),
        word_end(text, from) < text.len() ==> text[word_end(text, from)] == ' ',
        forall|i: int| from <= i < word_end(text, from) ==> text[i] != ' ',
    decreases text.len() - from,
{
    if from < text.len() && text[from] != ' ' {
        lemma_word_end_bounds(text, from + 1);
    }
}

/// Cuts the text at every space. See [`words`].
pub fn split_words(text: &str) -> (parts: Vec<&str>)
    ensures
        parts@.len() == words(text@, 0).len(),
        parts@.len() >= 1,
        forall|i: int| 0 <= i < parts@.len() ==> (#[trigger] parts@[i])@ == words(text@, 0)[i],
{
    let len: usize = text.unicode_len();
    let mut parts: Vec<&str> = Vec::new();
    let mut from: usize = 0;
    loop
        invariant_except_break
            from <= len,
            words(text@, 0).len() == parts@.len() + words(text@, from as int).len(),
            forall|i: int| 0 <= i < parts@.len() ==> (#[trigger] parts@[i])@ == words(text@, 0)[i],
            forall|i: int|
                0 <= i < words(text@, from as int).len() ==> words(text@, 0)[parts@.len() + i]
                    == words(text@, from as int)[i],
        invariant
            len == text@.len(),
        ensures
            parts@.len() == words(text@, 0).len(),
            parts@.len() >= 1,
            forall|i: int| 0 <= i < parts@.len() ==> (#[trigger] parts@[i])@ == words(text@, 0)[i],
        decreases len - from,
    {
        let mut end: usize = from;
        while end < len && text.get_char(end) != ' '
            invariant
                from <= end <= len,
                len == text@.len(),
                word_end(text@, end as int) == word_end(text@, from as int),
            decreases len - end,
        {
            end += 1;
        }
        proof {
            lemma_word_end_bounds(text@, from as int);
            assert(end == word_end(text@, from as int));
        }
        let ghost rest = words(text@, from as int);
        let ghost before = parts@;
        parts.push(text.substring_char(from, end));
        if end >= len {
            assert(rest =~= seq![text@.subrange(from as int, len as int)]);
            assert(rest.len() == 1);
            assert(words(text@, 0)[before.len() as int] == rest[0]);
            break ;
        }
        proof {
            let tail = words(text@, end + 1);
            assert(rest =~= seq![text@.subrange(from as int, end as int)] + tail);
            assert(words(text@, 0)[before.len() as int] == rest[0]);
            assert forall|i: int| 0 <= i < tail.len() implies words(text@, 0)[parts@.len() + i]
                == tail[i] by {
                assert(words(text@, 0)[before.len() + (i + 1)] == rest[i + 1]);
            }
        }
        from = end + 1;
    }
    parts
}

/// Whether the two texts are the same.
fn same_text(a: &str, b: &str) -> (same: bool)
    ensures
        same == (a@ == b@),
{
    String::from_str(a) == String::from_str(b)
}

/// The rank that the word names: `default`, `staff` or `owner`.
pub fn parse_rank(word: &str) -> (rank: Option<Rank>)
    ensures
        rank == rank_named(word@),
{
    if same_text(word, "default") {
        Some(Rank::Default)
    } else if same_text(word, "staff") {
        Some(Rank::Staff)
    } else if same_text(word, "owner") {
        Some(Rank::Owner)
    } else {
        None
    }
}

/// What a `rank` command with these arguments asks for: with two
/// arguments, the second of which names a rank, that rank for the player
/// whom the first names.
pub fn handle_rank(args: &Vec<&str>) -> (request: RankRequest)
    ensures
        request@ == rank_request(Seq::new(args@.len(), |i: int| args@[i]@)),
{
    if args.len() != 2 {
        return RankRequest::Usage;
    }
    match parse_rank(args[1]) {
        Some(rank) => RankRequest::Update { player: String::from_str(args[0]), rank },
        None => RankRequest::InvalidRank,
    }
}

/// Reads a line of the console as a command. See [`parsed_command`].
pub fn handle_command(command: &str) -> (parsed: ConsoleCommand)
    ensures
        parsed@ == parsed_command(command@),
{
    let mut parts = split_words(command);
    let name = parts[0];
    if same_text(name, "rank") {
        let ghost all = parts@;
        parts.remove(0);
        assert(Seq::new(parts@.len(), |i: int| parts@[i]@) =~= words(command@, 0).skip(1)) by {
            assert forall|i: int| 0 <= i < parts@.len() implies parts@[i]@ == words(
                command@,
                0,
            ).skip(1)[i] by {
                assert(parts@[i] == all[i + 1]);
            }
        }
        ConsoleCommand::Rank(handle_rank(&parts))
    } else if same_text(name, "help") {
        ConsoleCommand::Help
    } else if same_text(name, "stop") {
        ConsoleCommand::Stop
    } else {
        ConsoleCommand::Unrecognized
    }
}

/// The place of the first of the names that is `player`.
pub fn find_player(names: &Vec<String>, player: &str) -> (found: Option<usize>)
    ensures
        match found {
            Some(i) => i < names@.len() && names@[i as int]@ == player@ && forall|j: int|
                0 <= j < i ==> names@[j]@ != player@,
            None => forall|j: int| 0 <= j < names@.len() ==> names@[j]@ != player@,
        },
{
    let mut i: usize = 0;
    while i < names.len()
        invariant
            i <= names@.len(),
            forall|j: int| 0 <= j < i ==> names@[j]@ != player@,
        decreases names@.len() - i,
    {
        if same_text(names[i].as_str(), player) {
            return Some(i);
        }
        i += 1;
    }
    None
}

/// The buffer of `bytes` that holds what was read of the console's input
/// and not yet taken as a line.
#[verifier::external_type_specification]
#[verifier::external_body]
pub struct ExBytesMut(BytesMut);

/// The bytes that a buffer holds, in their order.
pub uninterp spec fn buffered(buffer: BytesMut) -> Seq<u8>;

/// `Buf::chunk` of `bytes` for `BytesMut`: the slice of all the bytes that
/// the buffer holds.
#[verifier::external_body]
fn buffer_chunk(buffer: &BytesMut) -> (chunk: &[u8])
    ensures
        chunk@ == buffered(*buffer),
{
    buffer.chunk()
}

/// `Buf::advance` of `bytes` for `BytesMut`: drops the first `count` bytes
/// of the buffer. It panics where the buffer holds fewer.
#[verifier::external_body]
fn buffer_advance(buffer: &mut BytesMut, count: usize)
    requires
        count <= buffered(*old(buffer)).len(),
    ensures
        buffered(*final(buffer)) == buffered(*old(buffer)).skip(count as int),
{
    buffer.advance(count)
}

/// `str::from_utf8` of std: the bytes as text where they are valid UTF-8,
/// nothing where they are not.
#[verifier::external_body]
fn utf8_text(bytes: &[u8]) -> (text: Option<&str>)
    ensures
        match text {
            Some(line) => valid_utf8(bytes@) && line@ == decode_utf8(bytes@),
            None => !valid_utf8(bytes@),
        },
{
    std::str::from_utf8(bytes).ok()
}

/// The place of the first line feed at or behind `from`, or the number of
/// the bytes where there is none.
pub open spec fn line_feed(bytes: Seq<u8>, from: int) -> int
    decreases bytes.len() - from,
{
    if from >= bytes.len() || bytes[from] == 10 {
        from
    } else {
        line_feed(bytes, from + 1)
    }
}

/// A line feed is not before the place from which it was sought.
pub proof fn lemma_line_feed_not_before(bytes: Seq<u8>, from: int)
    ensures
        from <= line_feed(bytes, from),
    decreases bytes.len() - from,
{
    if from < bytes.len() && bytes[from] != 10 {
        lemma_line_feed_not_before(bytes, from + 1);
    }
}

/// What taking the lines out of the console's input gives.
pub struct Framing {
    /// The lines that were taken, without their line feeds.
    pub commands: Seq<Seq<char>>,
    /// The bytes that stay in the buffer.
    pub rest: Seq<u8>,
    /// Whether a line that is not valid UTF-8 stopped the taking.
    pub failed: bool,
}

/// The lines of the input, taken from the front one by one. Each line ends
/// with a line feed, which is dropped; what follows the last line feed
/// stays. A line that is not valid UTF-8 stops the taking and stays, with
/// all that follows it.
pub open spec fn framed(bytes: Seq<u8>) -> Framing
    decreases bytes.len(),
{
    let end = line_feed(bytes, 0);
    if end >= bytes.len() {
        Framing { commands: seq![], rest: bytes, failed: false }
    } else if !valid_utf8(bytes.take(end)) {
        Framing { commands: seq![], rest: bytes, failed: true }
    } else {
        proof {
            lemma_line_feed_not_before(bytes, 0);
        }
        let later = framed(bytes.skip(end + 1));
        Framing {
            commands: seq![decode_utf8(bytes.take(end))] + later.commands,
            rest: later.rest,
            failed: later.failed,
        }
    }
}

/// The place of the first line feed among the bytes, which ends the first
/// line.
pub fn line_end(buffer: &[u8]) -> (end: Option<usize>)
    ensures
        end == if line_feed(buffer@, 0) < buffer@.len() {
            Some(line_feed(buffer@, 0) as usize)
        } else {
            None
        },
{
    let mut i: usize = 0;
    while i < buffer.len()
        invariant
            i <= buffer@.len(),
            line_feed(buffer@, i as int) == line_feed(buffer@, 0),
        decreases buffer@.len() - i,
    {
        if buffer[i] == 10 {
            return Some(i);
        }
        i += 1;
    }
    None
}

/// Takes the lines that the buffer holds out of it, as commands. See
/// [`framed`]. The commands that were taken before a line that is not valid
/// UTF-8 are lost.
pub fn take_commands(buffer: &mut BytesMut) -> (r: Result<Vec<String>, ConsoleFutureError>)
    ensures
        buffered(*final(buffer)) == framed(buffered(*old(buffer))).rest,
        match r {
            Ok(commands) => !framed(buffered(*old(buffer))).failed && commands.deep_view()
                == framed(buffered(*old(buffer))).commands,
            Err(error) => framed(buffered(*old(buffer))).failed && error
                == ConsoleFutureError::FailedUtfRead,
        },
{
    let ghost input = buffered(*buffer);
    let mut commands: Vec<String> = Vec::new();
    assert(commands.deep_view() =~= Seq::<Seq<char>>::empty());
    loop
        invariant
            input == buffered(*old(buffer)),
            framed(input).commands == commands.deep_view() + framed(buffered(*buffer)).commands,
            framed(input).rest == framed(buffered(*buffer)).rest,
            framed(input).failed == framed(buffered(*buffer)).failed,
        decreases buffered(*buffer).len(),
    {
        let ghost current = buffered(*buffer);
        let ghost taken = commands.deep_view();
        let chunk = buffer_chunk(buffer);
        let length: usize = chunk.len();
        proof {
            lemma_line_feed_not_before(current, 0);
        }
        match line_end(chunk) {
            None => {
                assert(taken + Seq::<Seq<char>>::empty() =~= taken);
                return Ok(commands);
            },
            Some(end) => {
                let line = slice_subrange(chunk, 0, end);
                assert(line@ =~= current.take(end as int));
                match utf8_text(line) {
                    None => {
                        return Err(ConsoleFutureError::FailedUtfRead);
                    },
                    Some(text) => {
                        commands.push(String::from_str(text));
                        assert(end < length);
                        buffer_advance(buffer, end + 1);
                        assert(commands.deep_view() =~= taken.push(text@));
                        assert(taken.push(text@) + framed(buffered(*buffer)).commands =~= taken + (
                        seq![text@] + framed(buffered(*buffer)).commands));
                    },
                }
            },
        }
    }
}

} // verus!
