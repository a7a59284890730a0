use vstd::prelude::*;

use crate::codec::{
    decode_text, decoded, is_status_line, is_terminated_message, is_terminator, is_valid_message,
    parse_status_line, payload_line, status_code, status_text, unstuffed,
};
use crate::command::Command;
use crate::text::{decimal_text, digits_text, is_line_end, lemma_decimal_round_trip, trim};
use crate::errors::{
    article_error_or_network, article_failure, response_error_or_network, response_failure,
    write_error_or_network, write_failure, IoError, NNTPError,
};
use crate::model::{
    article_body, article_headers, is_group_line, is_list_line, names_unique, views, Article,
    NewsGroup,
};

verus! {

/// What a finished command hands back.
#[derive(Debug)]
pub enum Reply {
    /// Success with nothing to return.
    Done,
    /// The text after the status code.
    Text(String),
    /// The lines of a multi-line payload.
    Lines(Vec<String>),
    /// The group that `GROUP` selected.
    Group(NewsGroup),
    /// The groups that `LIST` returned.
    Groups(Vec<NewsGroup>),
    /// The article that `ARTICLE` returned.
    Article(Article),
}

/// What the caller does next with the connection.
#[derive(Debug)]
pub enum Step {
    /// Write these bytes, then read one line and hand it over.
    Send(String),
    /// Read one line and hand it over.
    Read,
    /// The command is over.
    Finished(Result<Reply, NNTPError>),
}

/// Where an exchange stands.
#[derive(Debug, Clone, Copy, PartialEq, Eq, Structural)]
pub enum Phase {
    /// Awaiting the first status line.
    Status,
    /// Reading a multi-line payload.
    Payload,
    /// The article of a `POST` was sent; awaiting its acknowledgement.
    Posted,
    /// Finished.
    Done,
}

/// One command in progress: its phase and the payload lines read so far.
pub struct Exchange {
    pub command: Command,
    pub phase: Phase,
    pub lines: Vec<String>,
}

/// The error inside the wrapper that a failed greeting adds, or the error itself.
pub open spec fn unwrapped(cmd: Command, e: NNTPError) -> NNTPError {
    if cmd is Greeting && e is FailedConnecting {
        *e->FailedConnecting_error
    } else {
        e
    }
}

/// A failed greeting is reported as `FailedConnecting`, expecting a
/// "greeting response".
pub open spec fn wrapped_as(cmd: Command, e: NNTPError) -> bool {
    cmd is Greeting ==> e is FailedConnecting && e->FailedConnecting_expected@
        == "greeting response"@
}

/// The error owed for a first status line that is not success.
pub open spec fn status_error(cmd: Command, line: Seq<char>, e: NNTPError) -> bool {
    if !is_status_line(line) {
        e is InvalidResponse && e->InvalidResponse_response@ == crate::text::trim(line, false)
    } else if cmd.is_article() && status_code(line) == 423 {
        e is ArticleUnavailable
    } else {
        e == NNTPError::ResponseCode {
            expected: cmd.expected().value() as isize,
            received: status_code(line) as isize,
        }
    }
}

/// The result owed for a command without payload, from the text after its code.
pub open spec fn status_reply(cmd: Command, rest: Seq<char>, r: Result<Reply, NNTPError>) -> bool {
    match cmd {
        Command::Group(_) => if is_group_line(rest) {
            r is Ok && r->Ok_0 is Group && r->Ok_0->Group_0.selected(rest)
        } else {
            r is Err && r->Err_0 is InvalidResponse && r->Err_0->InvalidResponse_response@ == rest
        },
        Command::Stat(_) | Command::Last | Command::Next | Command::Date => r is Ok && r->Ok_0 is Text
            && r->Ok_0->Text_0@ == rest,
        _ => r is Ok && r->Ok_0 is Done,
    }
}

/// The index of the first line that is not a `LIST` line.
pub open spec fn first_bad_list_line(lines: Seq<Seq<char>>, i: int) -> bool {
    &&& 0 <= i < lines.len()
    &&& !is_list_line(lines[i])
    &&& forall|j: int| 0 <= j < i ==> is_list_line(#[trigger] lines[j])
}

/// The result owed for a command with payload, from its delivered lines.
pub open spec fn payload_reply(cmd: Command, lines: Seq<Seq<char>>, r: Result<Reply, NNTPError>) -> bool {
    match cmd {
        Command::List => if forall|i: int| 0 <= i < lines.len() ==> is_list_line(#[trigger] lines[i]) {
            &&& r is Ok
            &&& r->Ok_0 is Groups
            &&& r->Ok_0->Groups_0@.len() == lines.len()
            &&& forall|i: int| 0 <= i < lines.len() ==> (#[trigger] r->Ok_0->Groups_0@[i]).listed(lines[i])
        } else {
            &&& r is Err
            &&& r->Err_0 is InvalidResponse
            &&& exists|i: int| first_bad_list_line(lines, i) && r->Err_0->InvalidResponse_response@
                == lines[i]
        },
        Command::Article(_) => {
            &&& r is Ok
            &&& r->Ok_0 is Article
            &&& names_unique(r->Ok_0->Article_0.headers@)
            &&& r->Ok_0->Article_0.header_view() == article_headers(lines)
            &&& views(r->Ok_0->Article_0.body@) == article_body(lines)
        },
        _ => r is Ok && r->Ok_0 is Lines && views(r->Ok_0->Lines_0@) == lines,
    }
}

/// What one decoded line `t` does to an exchange, and the step it yields.
pub open spec fn line_effect(old: Exchange, t: Seq<char>, new: Exchange, step: Step) -> bool {
    let cmd = old.command;
    &&& new.command == cmd
    &&& match old.phase {
        Phase::Status => if !(is_status_line(t) && cmd.accepts(status_code(t))) {
            &&& new.phase is Done
            &&& step is Finished && step->Finished_0 is Err
            &&& wrapped_as(cmd, step->Finished_0->Err_0)
            &&& status_error(cmd, t, unwrapped(cmd, step->Finished_0->Err_0))
        } else if cmd is Post {
            new.phase is Posted && step is Send && step->Send_0@ == cmd->Post_0@
        } else if cmd.has_payload() {
            new.phase is Payload && step is Read && new.lines@.len() == 0
        } else {
            new.phase is Done && step is Finished && status_reply(cmd, status_text(t), step->Finished_0)
        },
        Phase::Payload => if is_terminator(t) {
            new.phase is Done && step is Finished && payload_reply(cmd, views(old.lines@), step->Finished_0)
        } else {
            new.phase is Payload && step is Read && views(new.lines@) == views(old.lines@).push(
                unstuffed(t),
            )
        },
        Phase::Posted => {
            &&& new.phase is Done
            &&& step is Finished
            &&& if is_status_line(t) && status_code(t) == 240 {
                step->Finished_0 is Ok && step->Finished_0->Ok_0 is Done
            } else {
                step->Finished_0 is Err && if !is_status_line(t) {
                    step->Finished_0->Err_0 is InvalidResponse
                        && step->Finished_0->Err_0->InvalidResponse_response@ == crate::text::trim(
                        t,
                        false,
                    )
                } else {
                    step->Finished_0->Err_0 == NNTPError::ResponseCode {
                        expected: 240,
                        received: status_code(t) as isize,
                    }
                }
            }
        },
        Phase::Done => false,
    }
}

/// Checks a first status line against what the command expects: the code
/// and the rest of the line on success; else `InvalidResponse` for a
/// malformed line, `ArticleUnavailable` for 423 to an article request, and
/// `ResponseCode` for any other code.
pub fn check_status(cmd: &Command, line: &str) -> (r: Result<(isize, String), NNTPError>)
    ensures
        r is Ok <==> is_status_line(line@) && cmd.accepts(status_code(line@)),
        r is Ok ==> r->Ok_0.0 == status_code(line@) && r->Ok_0.1@ == status_text(line@),
        r is Err ==> status_error(*cmd, line@, r->Err_0),
{
    match parse_status_line(line) {
        Err(e) => Err(e),
        Ok((code, rest)) => {
            if cmd.accepts_code(code) {
                Ok((code, rest))
            } else if cmd.retrieves_article() && code == 423 {
                Err(NNTPError::ArticleUnavailable)
            } else {
                Err(NNTPError::ResponseCode { expected: cmd.expected_code().code(), received: code })
            }
        },
    }
}

/// The result of a command without payload, from the text after its code.
pub fn finish_status(cmd: &Command, rest: String) -> (r: Result<Reply, NNTPError>)
    ensures
        status_reply(*cmd, rest@, r),
{
    match cmd {
        Command::Group(_) => match NewsGroup::parse_group_line(rest.as_str()) {
            Some(g) => Ok(Reply::Group(g)),
            None => Err(NNTPError::InvalidResponse { response: rest }),
        },
        Command::Stat(_) | Command::Last | Command::Next | Command::Date => Ok(Reply::Text(rest)),
        _ => Ok(Reply::Done),
    }
}

/// The result of a command with payload, from its delivered lines: the
/// groups of `LIST`, the article of `ARTICLE`, else the lines themselves.
pub fn finish_payload(cmd: &Command, lines: Vec<String>) -> (r: Result<Reply, NNTPError>)
    ensures
        payload_reply(*cmd, views(lines@), r),
{
    match cmd {
        Command::List => {
            let ghost ls = views(lines@);
            let mut groups: Vec<NewsGroup> = Vec::new();
            let mut i: usize = 0;
            while i < lines.len()
                invariant
                    i <= lines@.len(),
                    *cmd is List,
                    ls == views(lines@),
                    groups@.len() == i,
                    forall|j: int| 0 <= j < i ==> is_list_line(#[trigger] ls[j]),
                    forall|j: int| 0 <= j < i ==> (#[trigger] groups@[j]).listed(ls[j]),
                decreases lines@.len() - i,
            {
                match NewsGroup::parse_list_line(lines[i].as_str()) {
                    Some(g) => {
                        groups.push(g);
                    },
                    None => {
                        assert(first_bad_list_line(ls, i as int));
                        return Err(NNTPError::InvalidResponse { response: lines[i].clone() });
                    },
                }
                i = i + 1;
            }
            Ok(Reply::Groups(groups))
        },
        Command::Article(_) => Ok(Reply::Article(Article::new_article(lines))),
        _ => Ok(Reply::Lines(lines)),
    }
}

impl Exchange {
    /// Starts a command: the request to send, or for the greeting a read.
    /// A `POST` whose article does not end with CR LF . CR LF is refused with
    /// `InvalidMessage` before anything is sent.
    pub fn start(command: Command) -> (r: (Exchange, Step))
        ensures
            r.0.command == command,
            command is Post && !is_terminated_message(vstd::utf8::encode_utf8(command->Post_0@)) ==> {
                &&& r.0.phase is Done
                &&& r.1 is Finished && r.1->Finished_0 is Err
                &&& r.1->Finished_0->Err_0 is InvalidMessage
                &&& r.1->Finished_0->Err_0->InvalidMessage_message@ == command->Post_0@
            },
            !(command is Post && !is_terminated_message(vstd::utf8::encode_utf8(command->Post_0@))) ==> {
                &&& r.0.phase is Status
                &&& r.0.lines@.len() == 0
                &&& command is Greeting ==> r.1 is Read
                &&& !(command is Greeting) ==> r.1 is Send && r.1->Send_0@ == command.request_text()
            },
    {
        let lines: Vec<String> = Vec::new();
        if let Command::Post(message) = &command {
            if !is_valid_message(message.as_str()) {
                let err = NNTPError::InvalidMessage {
                    message: message.clone(),
                    reason: "message must end with CR LF . CR LF".to_owned(),
                };
                return (Exchange { command, phase: Phase::Done, lines }, Step::Finished(Err(err)));
            }
        }
        if let Command::Greeting = &command {
            return (Exchange { command, phase: Phase::Status, lines }, Step::Read);
        }
        let request = command.request();
        (Exchange { command, phase: Phase::Status, lines }, Step::Send(request))
    }

    /// Wraps a failure of the greeting as `FailedConnecting`.
    fn fail(&self, e: NNTPError) -> (r: NNTPError)
        ensures
            wrapped_as(self.command, r),
            unwrapped(self.command, r) == e,
    {
        if let Command::Greeting = &self.command {
            NNTPError::FailedConnecting { error: Box::new(e), expected: "greeting response".to_owned() }
        } else {
            e
        }
    }

    /// Takes one received line, CR LF included.
    pub fn on_line(&mut self, bytes: &[u8]) -> (step: Step)
        requires
            bytes@.len() <= usize::MAX / 8,
            !(old(self).phase is Done),
        ensures
            decoded(bytes@) is None ==> {
                &&& final(self).command == old(self).command
                &&& final(self).phase is Done
                &&& step is Finished && step->Finished_0 is Err
                &&& wrapped_as(old(self).command, step->Finished_0->Err_0)
                &&& unwrapped(old(self).command, step->Finished_0->Err_0) is DecodingError
            },
            decoded(bytes@) is Some ==> line_effect(*old(self), decoded(bytes@)->0, *final(self), step),
    {
        let text = match decode_text(bytes) {
            Ok(t) => t,
            Err(e) => {
                self.phase = Phase::Done;
                return Step::Finished(Err(self.fail(e)));
            },
        };
        match self.phase {
            Phase::Status => self.on_status(text),
            Phase::Payload => self.on_payload(text),
            _ => self.on_posted(text),
        }
    }

    fn on_status(&mut self, text: String) -> (step: Step)
        requires
            old(self).phase is Status,
        ensures
            line_effect(*old(self), text@, *final(self), step),
    {
        match check_status(&self.command, text.as_str()) {
            Err(e) => {
                self.phase = Phase::Done;
                Step::Finished(Err(self.fail(e)))
            },
            Ok((_, rest)) => {
                if let Command::Post(message) = &self.command {
                    self.phase = Phase::Posted;
                    return Step::Send(message.clone());
                }
                if self.command.expects_payload() {
                    self.phase = Phase::Payload;
                    self.lines = Vec::new();
                    Step::Read
                } else {
                    self.phase = Phase::Done;
                    Step::Finished(finish_status(&self.command, rest))
                }
            },
        }
    }

    fn on_payload(&mut self, text: String) -> (step: Step)
        requires
            old(self).phase is Payload,
        ensures
            line_effect(*old(self), text@, *final(self), step),
    {
        match payload_line(text.as_str()) {
            None => {
                self.phase = Phase::Done;
                let mut lines: Vec<String> = Vec::new();
                std::mem::swap(&mut lines, &mut self.lines);
                Step::Finished(finish_payload(&self.command, lines))
            },
            Some(line) => {
                self.lines.push(line);
                assert(views(self.lines@) =~= views(old(self).lines@).push(unstuffed(text@)));
                Step::Read
            },
        }
    }

    fn on_posted(&mut self, text: String) -> (step: Step)
        requires
            old(self).phase is Posted,
        ensures
            line_effect(*old(self), text@, *final(self), step),
    {
        self.phase = Phase::Done;
        match parse_status_line(text.as_str()) {
            Err(e) => Step::Finished(Err(e)),
            Ok((code, _)) => if code == 240 {
                Step::Finished(Ok(Reply::Done))
            } else {
                Step::Finished(Err(NNTPError::ResponseCode { expected: 240, received: code }))
            },
        }
    }

    /// Takes a failure to read: `Io` for a network kind, else
    /// `FailedReadingArticle` while an article arrives and
    /// `FailedReadingResponse` otherwise.
    pub fn on_read_error(&mut self, error: IoError) -> (step: Step)
        ensures
            final(self).command == old(self).command,
            final(self).phase is Done,
            step is Finished && step->Finished_0 is Err,
            wrapped_as(old(self).command, step->Finished_0->Err_0),
            unwrapped(old(self).command, step->Finished_0->Err_0) == if old(self).phase is Payload
                && old(self).command.is_article() {
                article_failure(error)
            } else {
                response_failure(error)
            },
    {
        let e = if matches!(self.phase, Phase::Payload) && self.command.retrieves_article() {
            article_error_or_network(error)
        } else {
            response_error_or_network(error)
        };
        self.phase = Phase::Done;
        Step::Finished(Err(self.fail(e)))
    }

    /// Takes a failure to write: `Io` for a network kind, else
    /// `FailedWritingRequest`.
    pub fn on_write_error(&mut self, error: IoError) -> (step: Step)
        ensures
            final(self).command == old(self).command,
            final(self).phase is Done,
            step is Finished && step->Finished_0 is Err,
            wrapped_as(old(self).command, step->Finished_0->Err_0),
            unwrapped(old(self).command, step->Finished_0->Err_0) == write_failure(error),
    {
        let e = write_error_or_network(error);
        self.phase = Phase::Done;
        Step::Finished(Err(self.fail(e)))
    }
}

/// A status line as a server writes it: the code, a space, the text, CR LF.
pub open spec fn status_line(code: int, text: Seq<char>) -> Seq<char> {
    decimal_text(code) + seq![' '] + text + seq!['\r', '\n']
}

proof fn lemma_three_digits(c: int)
    requires
        100 <= c <= 999,
    ensures
        decimal_text(c).len() == 3,
{
    let n = c as nat;
    assert(digits_text(n) == digits_text(n / 10).push(crate::text::digit_char(n % 10)));
    assert(digits_text(n / 10) == digits_text(n / 100).push(crate::text::digit_char((n / 10) % 10)));
    assert(n / 10 / 10 == n / 100);
    assert(digits_text(n / 100).len() == 1);
}

/// A line written from a three-digit code and a text that does not end in
/// CR or LF reads back as that code and that text.
pub proof fn lemma_status_line_round_trip(code: int, text: Seq<char>)
    requires
        100 <= code <= 999,
        text.len() >= 1,
        !is_line_end(text.last()),
    ensures
        is_status_line(status_line(code, text)),
        status_code(status_line(code, text)) == code,
        status_text(status_line(code, text)) == text,
{
    lemma_three_digits(code);
    lemma_decimal_round_trip(code);
    let d = decimal_text(code);
    let t = d + seq![' '] + text;
    let line = status_line(code, text);
    assert(line.drop_last() =~= t.push('\r'));
    assert(line.drop_last().drop_last() =~= t);
    assert(line.last() == '\n');
    assert(line.drop_last().last() == '\r');
    assert(crate::text::trim_end(line, false) == crate::text::trim_end(line.drop_last(), false));
    assert(crate::text::trim_end(line.drop_last(), false) == crate::text::trim_end(
        line.drop_last().drop_last(),
        false,
    ));
    assert(crate::text::trim_end(line, false) == crate::text::trim_end(t, false));
    assert(!crate::text::is_trimmed(t.last(), false));
    assert(t[0] == d[0]);
    assert(!crate::text::is_trimmed(d[0], true));
    assert(trim(line, false) == t);
    assert(t.take(3) =~= d);
    assert(t.skip(4) =~= text);
}

/// A first reply that carries the expected code is success: a `POST` goes on
/// to send its article, a command with payload goes on to read it, and any
/// other command finishes with the result its reply text gives (for `STAT`,
/// `LAST`, `NEXT` and `DATE`, that text itself).
pub proof fn lemma_expected_code_succeeds(ex: Exchange, text: Seq<char>, new: Exchange, step: Step)
    requires
        ex.phase is Status,
        text.len() >= 1,
        !is_line_end(text.last()),
        line_effect(ex, status_line(ex.command.expected().value(), text), new, step),
    ensures
        ex.command is Post ==> step is Send,
        !(ex.command is Post) && ex.command.has_payload() ==> step is Read && new.phase is Payload,
        !(ex.command is Post) && !ex.command.has_payload() ==> step is Finished && status_reply(
            ex.command,
            text,
            step->Finished_0,
        ),
{
    lemma_status_line_round_trip(ex.command.expected().value(), text);
}

/// A first reply with a code other than the one expected fails with
/// `ResponseCode` carrying both codes, unless it is 423 to an article
/// request (or 200, which a greeting also takes).
pub proof fn lemma_other_code_fails(ex: Exchange, code: int, text: Seq<char>, new: Exchange, step: Step)
    requires
        ex.phase is Status,
        100 <= code <= 999,
        code != ex.command.expected().value(),
        !(ex.command is Greeting && code == 200),
        !(ex.command.is_article() && code == 423),
        text.len() >= 1,
        !is_line_end(text.last()),
        line_effect(ex, status_line(code, text), new, step),
    ensures
        step is Finished && step->Finished_0 is Err,
        unwrapped(ex.command, step->Finished_0->Err_0) == (NNTPError::ResponseCode {
            expected: ex.command.expected().value() as isize,
            received: code as isize,
        }),
{
    lemma_status_line_round_trip(code, text);
}

/// An article request answered with 423 fails with `ArticleUnavailable`.
pub proof fn lemma_article_unavailable(ex: Exchange, text: Seq<char>, new: Exchange, step: Step)
    requires
        ex.phase is Status,
        ex.command.is_article(),
        text.len() >= 1,
        !is_line_end(text.last()),
        line_effect(ex, status_line(423, text), new, step),
    ensures
        step is Finished && step->Finished_0 is Err,
        (step->Finished_0->Err_0 is ArticleUnavailable),
{
    lemma_status_line_round_trip(423, text);
}

/// The `i`th line took the exchange from its `i`th state to the next.
pub open spec fn chained(exs: Seq<Exchange>, steps: Seq<Step>, ls: Seq<Seq<char>>, i: int) -> bool {
    line_effect(exs[i], ls[i], exs[i + 1], steps[i])
}

/// Payload lines as delivered.
pub open spec fn delivered(ls: Seq<Seq<char>>) -> Seq<Seq<char>> {
    ls.map_values(|l: Seq<char>| unstuffed(l))
}

/// Reading a payload line by line: after the lines `ls` and then the
/// terminator, the command finishes with the result owed for `ls`, each line
/// as delivered (unchanged unless it opens with `..`) and the terminator left
/// out.
pub proof fn lemma_payload_framing(exs: Seq<Exchange>, steps: Seq<Step>, ls: Seq<Seq<char>>)
    requires
        ls.len() >= 1,
        exs.len() == ls.len() + 1,
        steps.len() == ls.len(),
        exs[0].phase is Payload,
        exs[0].lines@.len() == 0,
        is_terminator(ls.last()),
        forall|i: int| 0 <= i < ls.len() - 1 ==> !is_terminator(#[trigger] ls[i]),
        forall|i: int| 0 <= i < ls.len() ==> #[trigger] chained(exs, steps, ls, i),
    ensures
        steps.last() is Finished,
        payload_reply(exs[0].command, delivered(ls.drop_last()), steps.last()->Finished_0),
{
    let n = ls.len() - 1;
    lemma_framing_prefix(exs, steps, ls, n);
    assert(chained(exs, steps, ls, n));
    assert(ls.take(n) =~= ls.drop_last());
}

proof fn lemma_framing_prefix(exs: Seq<Exchange>, steps: Seq<Step>, ls: Seq<Seq<char>>, k: int)
    requires
        0 <= k < ls.len(),
        exs.len() == ls.len() + 1,
        exs[0].phase is Payload,
        exs[0].lines@.len() == 0,
        forall|i: int| 0 <= i < ls.len() - 1 ==> !is_terminator(#[trigger] ls[i]),
        forall|i: int| 0 <= i < ls.len() ==> #[trigger] chained(exs, steps, ls, i),
    ensures
        exs[k].phase is Payload,
        exs[k].command == exs[0].command,
        views(exs[k].lines@) == delivered(ls.take(k)),
    decreases k,
{
    if k == 0 {
        assert(views(exs[0].lines@) =~= delivered(ls.take(0)));
    } else {
        lemma_framing_prefix(exs, steps, ls, k - 1);
        assert(chained(exs, steps, ls, k - 1));
        assert(!is_terminator(ls[k - 1]));
        assert(delivered(ls.take(k)) =~= delivered(ls.take(k - 1)).push(unstuffed(ls[k - 1])));
    }
}

} // verus!
