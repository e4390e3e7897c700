//! Reply lines, and the reply that they add up to.

use vstd::prelude::*;
use vstd::slice::slice_subrange;

verus! {

#[derive(Clone, Copy, Debug, PartialEq, Eq, Structural)]
pub enum ResponseLineError {
    /// The line is shorter than a reply code.
    TooShort,
    /// The line does not start with a reply code, or with another one than
    /// the lines before it.
    InvalidCode,
    /// What follows the code is neither a space, a hyphen nor a line end.
    InvalidDelimiter,
    /// The reply was over before this line.
    Finished,
}

/// The three digits of a reply code, as the ASCII bytes that were read. A
/// code of three zero bytes stands for "no code yet".
#[derive(Clone, Copy, Debug, PartialEq, Eq, Structural)]
pub struct ReplyCode {
    a: u8,
    b: u8,
    c: u8,
}

/// Calls `String::push`, which appends one character.
#[verifier::external_body]
fn string_push(s: &mut String, c: char)
    ensures
        final(s)@ == old(s)@.push(c),
{
    s.push(c)
}

impl ReplyCode {
    /// The digits, first to last.
    pub closed spec fn digits(self) -> (u8, u8, u8) {
        (self.a, self.b, self.c)
    }

    /// Whether three bytes are the digits of a reply code: the first from
    /// `2` to `5`, the second from `0` to `5`, the third any digit.
    pub open spec fn valid_digits(a: u8, b: u8, c: u8) -> bool {
        &&& 0x32 <= a <= 0x35
        &&& 0x30 <= b <= 0x35
        &&& 0x30 <= c <= 0x39
    }

    /// The code that three bytes spell, if they spell one.
    pub closed spec fn spec_new(a: u8, b: u8, c: u8) -> Option<ReplyCode> {
        if Self::valid_digits(a, b, c) {
            Some(ReplyCode { a, b, c })
        } else {
            None
        }
    }

    pub open spec fn spec_is_set(self) -> bool {
        self.digits().0 != 0
    }

    /// The code as a number, for digits that are digits.
    pub open spec fn number(self) -> int {
        (self.digits().0 - 0x30) * 100 + (self.digits().1 - 0x30) * 10 + (self.digits().2 - 0x30)
    }

    /// The three digits as text.
    pub open spec fn text(self) -> Seq<char> {
        seq![self.digits().0 as char, self.digits().1 as char, self.digits().2 as char]
    }

    /// A code is told from every other by its digits, and a code that was
    /// made from digits has just these digits.
    pub proof fn lemma_digits(a: u8, b: u8, c: u8)
        ensures
            Self::spec_new(a, b, c) is Some <==> Self::valid_digits(a, b, c),
            Self::spec_new(a, b, c) matches Some(code) ==> code.digits() == (a, b, c)
                && code.spec_is_set(),
            forall|x: ReplyCode, y: ReplyCode| x.digits() == y.digits() ==> x == y,
    {
    }

    /// 220, the greeting of a server that is ready.
    pub fn service_ready() -> (r: ReplyCode)
        ensures
            r.digits() == (0x32u8, 0x32u8, 0x30u8),
    {
        ReplyCode { a: 0x32, b: 0x32, c: 0x30 }
    }

    /// 554, the greeting of a server that takes no mail.
    pub fn no_service() -> (r: ReplyCode)
        ensures
            r.digits() == (0x35u8, 0x35u8, 0x34u8),
    {
        ReplyCode { a: 0x35, b: 0x35, c: 0x34 }
    }

    pub fn new(a: u8, b: u8, c: u8) -> (r: Option<ReplyCode>)
        ensures
            r == Self::spec_new(a, b, c),
            r is Some <==> Self::valid_digits(a, b, c),
            r matches Some(code) ==> code.digits() == (a, b, c),
    {
        if !(0x32 <= a && a <= 0x35) {
            return None;
        }
        if !(0x30 <= b && b <= 0x35) {
            return None;
        }
        if !(0x30 <= c && c <= 0x39) {
            return None;
        }
        Some(ReplyCode { a, b, c })
    }

    pub fn is_set(&self) -> (r: bool)
        ensures
            r == self.spec_is_set(),
    {
        self.a != 0
    }

    /// The code as a number; zero for a code that is not set.
    pub fn as_u16(&self) -> (r: u16)
        ensures
            Self::valid_digits(self.digits().0, self.digits().1, self.digits().2) ==> r
                == self.number() && 200 <= r <= 559,
            !Self::valid_digits(self.digits().0, self.digits().1, self.digits().2) ==> r == 0,
    {
        if !(0x32 <= self.a && self.a <= 0x35 && 0x30 <= self.b && self.b <= 0x35 && 0x30
            <= self.c && self.c <= 0x39) {
            return 0;
        }
        (self.a - 0x30) as u16 * 100 + (self.b - 0x30) as u16 * 10 + (self.c - 0x30) as u16
    }

    /// The code as text: its three bytes, each as one character.
    pub fn to_string(&self) -> (r: String)
        ensures
            r@ == self.text(),
    {
        let mut s = String::new();
        string_push(&mut s, self.a as char);
        string_push(&mut s, self.b as char);
        string_push(&mut s, self.c as char);
        assert(s@ == self.text());
        s
    }
}

impl Default for ReplyCode {
    fn default() -> (r: ReplyCode)
        ensures
            r.digits() == (0u8, 0u8, 0u8),
            !r.spec_is_set(),
    {
        ReplyCode { a: 0, b: 0, c: 0 }
    }
}

/// A code that was made from three bytes is written as these three bytes.
pub proof fn lemma_reply_code_text(a: u8, b: u8, c: u8)
    requires
        ReplyCode::spec_new(a, b, c) is Some,
    ensures
        ReplyCode::spec_new(a, b, c)->Some_0.text() == seq![a as char, b as char, c as char],
{
    ReplyCode::lemma_digits(a, b, c);
}

/// What is known of a reply after some of its lines: the code, and whether
/// more lines are to come.
pub ghost struct ResponseState {
    pub code: ReplyCode,
    pub multiline: bool,
}

impl ResponseState {
    /// The state before any line.
    pub open spec fn start() -> ResponseState {
        ResponseState { code: ReplyCode::spec_unset(), multiline: false }
    }

    /// Whether the reply is over.
    pub open spec fn finished(self) -> bool {
        self.code.spec_is_set() && !self.multiline
    }
}

impl ReplyCode {
    /// The code of three zero bytes.
    pub closed spec fn spec_unset() -> ReplyCode {
        ReplyCode { a: 0, b: 0, c: 0 }
    }

    pub proof fn lemma_unset()
        ensures
            !Self::spec_unset().spec_is_set(),
            Self::spec_unset().digits() == (0u8, 0u8, 0u8),
    {
    }
}

/// The code that a line starts with, if it starts with one.
pub open spec fn line_code(line: Seq<u8>) -> Option<ReplyCode> {
    if line.len() < 3 {
        None
    } else {
        ReplyCode::spec_new(line[0], line[1], line[2])
    }
}

/// Whether the line says that more lines follow: a hyphen behind the code.
pub open spec fn is_continuation(line: Seq<u8>) -> bool {
    line.len() > 3 && line[3] == 0x2d
}

/// Whether the line says that it is the last: behind the code stands a
/// space, a carriage return, a line feed, or nothing.
pub open spec fn is_terminal(line: Seq<u8>) -> bool {
    line.len() == 3 || (line.len() > 3 && (line[3] == 0x20 || line[3] == 0x0d || line[3] == 0x0a))
}

/// `s` without the line end that it may close with: a line feed, with or
/// without a carriage return before it.
pub open spec fn strip_line_end(s: Seq<u8>) -> Seq<u8> {
    if s.len() >= 2 && s[s.len() - 2] == 0x0d && s[s.len() - 1] == 0x0a {
        s.take(s.len() - 2)
    } else if s.len() >= 1 && s[s.len() - 1] == 0x0a {
        s.take(s.len() - 1)
    } else {
        s
    }
}

/// The message of a line: what stands behind code and delimiter, without
/// the line end.
pub open spec fn line_message(line: Seq<u8>) -> Seq<u8> {
    if line.len() <= 3 {
        Seq::empty()
    } else {
        strip_line_end(line.skip(4))
    }
}

/// What the first line of a reply gives, and the state after it.
///
/// A line that is taken in sets the code, and says whether more lines
/// follow. A line that is refused changes nothing.
pub open spec fn feed_first(state: ResponseState, line: Seq<u8>) -> (
    Result<Seq<u8>, ResponseLineError>,
    ResponseState,
) {
    if line.len() < 3 {
        (Err(ResponseLineError::TooShort), state)
    } else {
        match line_code(line) {
            None => (Err(ResponseLineError::InvalidCode), state),
            Some(code) => if is_terminal(line) {
                (Ok(line_message(line)), ResponseState { code, multiline: false })
            } else if is_continuation(line) {
                (Ok(line_message(line)), ResponseState { code, multiline: true })
            } else {
                (Err(ResponseLineError::InvalidDelimiter), state)
            },
        }
    }
}

/// What a later line of a reply gives, and the state after it. A line that
/// is refused changes nothing.
pub open spec fn feed_following(state: ResponseState, line: Seq<u8>) -> (
    Result<Seq<u8>, ResponseLineError>,
    ResponseState,
) {
    if !state.multiline {
        (Err(ResponseLineError::Finished), state)
    } else if line.len() < 3 {
        (Err(ResponseLineError::TooShort), state)
    } else {
        match line_code(line) {
            None => (Err(ResponseLineError::InvalidCode), state),
            Some(code) => if code != state.code {
                (Err(ResponseLineError::InvalidCode), state)
            } else if is_terminal(line) {
                (Ok(line_message(line)), ResponseState { code: state.code, multiline: false })
            } else if is_continuation(line) {
                (Ok(line_message(line)), state)
            } else {
                (Err(ResponseLineError::InvalidDelimiter), state)
            },
        }
    }
}

/// What a line gives, and the state after it.
pub open spec fn feed(state: ResponseState, line: Seq<u8>) -> (
    Result<Seq<u8>, ResponseLineError>,
    ResponseState,
) {
    if state.code.spec_is_set() {
        feed_following(state, line)
    } else {
        feed_first(state, line)
    }
}

/// The message of `line`, as a slice of it.
fn message_of<'a>(line: &'a [u8]) -> (r: &'a [u8])
    requires
        line@.len() >= 3,
    ensures
        r@ == line_message(line@),
{
    let n = line.len();
    if n == 3 {
        return slice_subrange(line, 3, 3);
    }
    let rest = slice_subrange(line, 4, n);
    let m = rest.len();
    if m >= 2 && rest[m - 2] == 0x0d && rest[m - 1] == 0x0a {
        slice_subrange(rest, 0, m - 2)
    } else if m >= 1 && rest[m - 1] == 0x0a {
        slice_subrange(rest, 0, m - 1)
    } else {
        assert(rest@.subrange(0, m as int) == rest@);
        slice_subrange(rest, 0, m)
    }
}

/// A reply in the making: lines are fed in until the reply is over.
#[derive(Debug)]
pub struct Response {
    code: ReplyCode,
    multiline: bool,
}

impl View for Response {
    type V = ResponseState;

    closed spec fn view(&self) -> ResponseState {
        ResponseState { code: self.code, multiline: self.multiline }
    }
}

impl Default for Response {
    fn default() -> (r: Response)
        ensures
            r@ == ResponseState::start(),
    {
        Response { code: ReplyCode { a: 0, b: 0, c: 0 }, multiline: false }
    }
}

impl Response {
    /// The longest line that a reply may hold, line end included.
    pub const MAX_LINE_SIZE: usize = 512;


    /// Takes in the next line of the reply and returns its message.
    pub fn feed_line<'a>(&mut self, line: &'a [u8]) -> (r: Result<&'a [u8], ResponseLineError>)
        ensures
            final(self)@ == feed(old(self)@, line@).1,
            match feed(old(self)@, line@).0 {
                Ok(msg) => r matches Ok(m) && m@ == msg,
                Err(e) => r == Err::<&[u8], ResponseLineError>(e),
            },
    {
        if self.code.is_set() {
            self.feed_following_line(line)
        } else {
            self.feed_first_line(line)
        }
    }

    /// Takes in the first line of a reply.
    pub fn feed_first_line<'a>(&mut self, line: &'a [u8]) -> (r: Result<
        &'a [u8],
        ResponseLineError,
    >)
        ensures
            final(self)@ == feed_first(old(self)@, line@).1,
            match feed_first(old(self)@, line@).0 {
                Ok(msg) => r matches Ok(m) && m@ == msg,
                Err(e) => r == Err::<&[u8], ResponseLineError>(e),
            },
    {
        if line.len() < 3 {
            return Err(ResponseLineError::TooShort);
        }
        let code = match ReplyCode::new(line[0], line[1], line[2]) {
            Some(code) => code,
            None => {
                return Err(ResponseLineError::InvalidCode);
            },
        };
        let multiline = if line.len() == 3 {
            false
        } else {
            match line[3] {
                0x20 | 0x0d | 0x0a => false,
                0x2d => true,
                _ => {
                    return Err(ResponseLineError::InvalidDelimiter);
                },
            }
        };
        self.code = code;
        self.multiline = multiline;
        Ok(message_of(line))
    }

    /// Takes in a line of a reply that has begun.
    pub fn feed_following_line<'a>(&mut self, line: &'a [u8]) -> (r: Result<
        &'a [u8],
        ResponseLineError,
    >)
        ensures
            final(self)@ == feed_following(old(self)@, line@).1,
            match feed_following(old(self)@, line@).0 {
                Ok(msg) => r matches Ok(m) && m@ == msg,
                Err(e) => r == Err::<&[u8], ResponseLineError>(e),
            },
    {
        if !self.multiline {
            return Err(ResponseLineError::Finished);
        }
        if line.len() < 3 {
            return Err(ResponseLineError::TooShort);
        }
        let code = match ReplyCode::new(line[0], line[1], line[2]) {
            Some(code) => code,
            None => {
                return Err(ResponseLineError::InvalidCode);
            },
        };
        if code != self.code {
            return Err(ResponseLineError::InvalidCode);
        }
        if line.len() == 3 {
            self.multiline = false;
            return Ok(message_of(line));
        }
        match line[3] {
            0x20 | 0x0d | 0x0a => {
                self.multiline = false;
            },
            0x2d => {},
            _ => {
                return Err(ResponseLineError::InvalidDelimiter);
            },
        }
        Ok(message_of(line))
    }

    /// Whether the reply is over.
    pub fn finished(&self) -> (r: bool)
        ensures
            r == self@.finished(),
    {
        self.code.is_set() && !self.multiline
    }

    pub fn code(&self) -> (r: ReplyCode)
        ensures
            r == self@.code,
    {
        self.code
    }
}

/// The state after the lines `lines`, fed one after another, or `None`
/// where one of them is refused.
pub open spec fn feed_all(state: ResponseState, lines: Seq<Seq<u8>>) -> Option<ResponseState>
    decreases lines.len(),
{
    if lines.len() == 0 {
        Some(state)
    } else {
        match feed(state, lines.first()) {
            (Ok(_), next) => feed_all(next, lines.drop_first()),
            (Err(_), _) => None,
        }
    }
}

/// Whether `lines` are the lines of one reply: at least one line; every
/// line starts with the same code and goes on with a delimiter; every line
/// but the last says that more follow.
pub open spec fn reply_lines(lines: Seq<Seq<u8>>) -> bool {
    &&& lines.len() >= 1
    &&& line_code(lines[0]) is Some
    &&& forall|i: int| 0 <= i < lines.len() ==> line_code(#[trigger] lines[i]) == line_code(lines[0])
    &&& forall|i: int|
        0 <= i < lines.len() ==> is_continuation(#[trigger] lines[i]) || is_terminal(lines[i])
    &&& forall|i: int| 0 <= i < lines.len() - 1 ==> is_continuation(#[trigger] lines[i])
}

proof fn lemma_feed_rest(state: ResponseState, lines: Seq<Seq<u8>>)
    requires
        lines.len() >= 1,
        state.multiline,
        state.code.spec_is_set(),
        forall|i: int| 0 <= i < lines.len() ==> line_code(#[trigger] lines[i]) == Some(state.code),
        forall|i: int|
            0 <= i < lines.len() ==> is_continuation(#[trigger] lines[i]) || is_terminal(lines[i]),
        forall|i: int| 0 <= i < lines.len() - 1 ==> is_continuation(#[trigger] lines[i]),
    ensures
        feed_all(state, lines) == Some(
            ResponseState { code: state.code, multiline: is_continuation(lines.last()) },
        ),
    decreases lines.len(),
{
    let rest = lines.drop_first();
    let next = feed(state, lines.first()).1;
    assert(lines.first() == lines[0]);
    if lines.len() == 1 {
        assert(lines.last() == lines[0]);
        assert(feed_all(next, rest) == Some(next));
    } else {
        assert(is_continuation(lines[0]));
        assert(next == state);
        assert forall|i: int| 0 <= i < rest.len() implies line_code(#[trigger] rest[i]) == Some(
            state.code,
        ) by {
            assert(rest[i] == lines[i + 1]);
        }
        assert forall|i: int| 0 <= i < rest.len() implies is_continuation(#[trigger] rest[i])
            || is_terminal(rest[i]) by {
            assert(rest[i] == lines[i + 1]);
        }
        assert forall|i: int| 0 <= i < rest.len() - 1 implies is_continuation(
            #[trigger] rest[i],
        ) by {
            assert(rest[i] == lines[i + 1]);
        }
        assert(rest.last() == lines.last());
        lemma_feed_rest(state, rest);
    }
}

/// The lines of one reply are all taken in, the code is the code they
/// share, and the reply is then over if and only if the last line does not
/// say that more follow.
pub proof fn lemma_reply_finishes(lines: Seq<Seq<u8>>)
    requires
        reply_lines(lines),
    ensures
        feed_all(ResponseState::start(), lines) matches Some(end) && Some(end.code) == line_code(
            lines[0],
        ) && (end.finished() <==> !is_continuation(lines.last())),
{
    let start = ResponseState::start();
    let code = line_code(lines[0])->Some_0;
    ReplyCode::lemma_unset();
    ReplyCode::lemma_digits(lines[0][0], lines[0][1], lines[0][2]);
    let rest = lines.drop_first();
    let next = feed(start, lines.first()).1;
    assert(lines.first() == lines[0]);
    if lines.len() == 1 {
        assert(lines.last() == lines[0]);
        assert(feed_all(next, rest) == Some(next));
    } else {
        assert(is_continuation(lines[0]));
        assert(next == ResponseState { code, multiline: true });
        assert forall|i: int| 0 <= i < rest.len() implies line_code(#[trigger] rest[i]) == Some(
            code,
        ) by {
            assert(rest[i] == lines[i + 1]);
        }
        assert forall|i: int| 0 <= i < rest.len() implies is_continuation(#[trigger] rest[i])
            || is_terminal(rest[i]) by {
            assert(rest[i] == lines[i + 1]);
        }
        assert forall|i: int| 0 <= i < rest.len() - 1 implies is_continuation(
            #[trigger] rest[i],
        ) by {
            assert(rest[i] == lines[i + 1]);
        }
        assert(rest.last() == lines.last());
        lemma_feed_rest(next, rest);
    }
}

/// A line with another code than the lines before it is refused, and
/// changes nothing.
pub proof fn lemma_code_change_is_refused(state: ResponseState, line: Seq<u8>)
    requires
        state.code.spec_is_set(),
        state.multiline,
        line_code(line) != Some(state.code),
    ensures
        feed(state, line).0 is Err,
        line.len() >= 3 ==> feed(state, line).0 == Err::<Seq<u8>, ResponseLineError>(
            ResponseLineError::InvalidCode,
        ),
        feed(state, line).1 == state,
{
}

/// Once a reply is over, every further line is refused.
pub proof fn lemma_nothing_after_the_end(state: ResponseState, line: Seq<u8>)
    requires
        state.finished(),
    ensures
        feed(state, line) == (
            Err::<Seq<u8>, ResponseLineError>(ResponseLineError::Finished),
            state,
        ),
{
}

/// A line that is refused changes nothing: it neither sets the code nor
/// ends the reply.
pub proof fn lemma_refused_line_changes_nothing(state: ResponseState, line: Seq<u8>)
    ensures
        feed(state, line).0 is Err ==> feed(state, line).1 == state,
        feed_first(state, line).0 is Err ==> feed_first(state, line).1 == state,
        feed_following(state, line).0 is Err ==> feed_following(state, line).1 == state,
{
}

/// The code of a reply is the code of the first line that was taken in,
/// and no later line changes it; before a line was taken in, no code is
/// set.
pub proof fn lemma_code_is_that_of_the_first_line(state: ResponseState, line: Seq<u8>)
    ensures
        state.code.spec_is_set() ==> feed(state, line).1.code == state.code,
        !state.code.spec_is_set() && feed(state, line).0 is Ok ==> Some(feed(state, line).1.code)
            == line_code(line) && feed(state, line).1.code.spec_is_set(),
        !state.code.spec_is_set() && feed(state, line).0 is Err ==> !feed(
            state,
            line,
        ).1.code.spec_is_set(),
        !ResponseState::start().code.spec_is_set(),
{
    ReplyCode::lemma_unset();
    if line.len() >= 3 {
        ReplyCode::lemma_digits(line[0], line[1], line[2]);
    }
}

/// A reply is ended by a line that is taken in and says that it is the
/// last, and by nothing else.
pub proof fn lemma_only_a_terminal_line_ends(state: ResponseState, line: Seq<u8>)
    requires
        !state.finished(),
    ensures
        feed(state, line).1.finished() <==> feed(state, line).0 is Ok && is_terminal(line),
{
    ReplyCode::lemma_unset();
    if line.len() >= 3 {
        ReplyCode::lemma_digits(line[0], line[1], line[2]);
    }
}

/// A line of fewer than three bytes is too short, and a line of more than
/// three whose fourth byte is no delimiter has an invalid delimiter,
/// provided that it starts with a code, which in a reply that has begun
/// must be the code of the reply.
pub proof fn lemma_line_errors(state: ResponseState, line: Seq<u8>)
    requires
        !state.finished(),
    ensures
        line.len() < 3 ==> feed(state, line).0 == Err::<Seq<u8>, ResponseLineError>(
            ResponseLineError::TooShort,
        ),
        line.len() > 3 && !is_continuation(line) && !is_terminal(line) && line_code(line) is Some
            && (state.code.spec_is_set() ==> line_code(line) == Some(state.code)) ==> feed(
            state,
            line,
        ).0 == Err::<Seq<u8>, ResponseLineError>(ResponseLineError::InvalidDelimiter),
{
}

} // verus!
