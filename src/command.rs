use vstd::prelude::*;

use crate::codes::ResponseCode;
use crate::text::{decimal_string, decimal_text};
use vstd::string::StringExecFns;

verus! {

/// Which article a command is about.
#[derive(Debug, Clone)]
pub enum Target {
    /// The current article of the selected group.
    Current,
    /// The article with this message id.
    Id(String),
    /// The article with this number in the selected group.
    Number(isize),
}

/// One exchange with the server: a verb and its arguments, or the greeting
/// that opens a connection.
#[derive(Debug, Clone)]
pub enum Command {
    Greeting,
    Capabilities,
    List,
    Group(String),
    Article(Target),
    RawArticle(Target),
    Head(Target),
    Body(Target),
    Stat(Target),
    Last,
    Next,
    Date,
    Help,
    NewGroups { date: String, time: String, gmt: bool },
    NewNews { wildmat: String, date: String, time: String, gmt: bool },
    Post(String),
    Quit,
}

/// The argument text that selects an article, with its leading space.
pub open spec fn target_text(t: Target) -> Seq<char> {
    match t {
        Target::Current => Seq::empty(),
        Target::Id(id) => " "@ + id@,
        Target::Number(n) => " "@ + decimal_text(n as int),
    }
}

/// ` GMT` when asked for, else nothing.
pub open spec fn gmt_text(gmt: bool) -> Seq<char> {
    if gmt {
        " GMT"@
    } else {
        Seq::empty()
    }
}

impl Command {
    /// The status code that a successful first reply carries.
    pub open spec fn expected(self) -> ResponseCode {
        match self {
            Command::Greeting => ResponseCode::ServiceAvailablePostingProhibited,
            Command::Capabilities => ResponseCode::CapabilitiesListFollows,
            Command::List => ResponseCode::InformationFollows,
            Command::Group(_) => ResponseCode::ArticleNumbersFollows,
            Command::Article(_) => ResponseCode::ArticleFollows,
            Command::RawArticle(_) => ResponseCode::ArticleFollows,
            Command::Head(_) => ResponseCode::ArticleHeadersFollows,
            Command::Body(_) => ResponseCode::ArticleBodyFollows,
            Command::Stat(_) => ResponseCode::ArticleExistsAndSelected,
            Command::Last => ResponseCode::ArticleExistsAndSelected,
            Command::Next => ResponseCode::ArticleExistsAndSelected,
            Command::Date => ResponseCode::ServerDateTime,
            Command::Help => ResponseCode::HelpTextFollows,
            Command::NewGroups { .. } => ResponseCode::ListOfNewNewsgroupsFollows,
            Command::NewNews { .. } => ResponseCode::ListOfNewArticlesFollows,
            Command::Post(_) => ResponseCode::SendArticleToPost,
            Command::Quit => ResponseCode::ConnectionClosing,
        }
    }

    /// Whether a first reply with this code is success: the expected code,
    /// or for the greeting either of the two service-available codes.
    pub open spec fn accepts(self, code: int) -> bool {
        code == self.expected().value() || (self is Greeting
            && code == ResponseCode::ServiceAvailablePostingAllowed.value())
    }

    /// Whether a multi-line payload follows a successful first reply.
    pub open spec fn has_payload(self) -> bool {
        match self {
            Command::Capabilities | Command::List | Command::Article(_) | Command::RawArticle(_)
            | Command::Head(_) | Command::Body(_) | Command::Help | Command::NewGroups { .. }
            | Command::NewNews { .. } => true,
            _ => false,
        }
    }

    /// Whether the command retrieves a whole article.
    pub open spec fn is_article(self) -> bool {
        self is Article || self is RawArticle
    }

    /// The request line sent for the command; empty for the greeting,
    /// which the server sends unasked.
    pub open spec fn request_text(self) -> Seq<char> {
        match self {
            Command::Greeting => Seq::empty(),
            Command::Capabilities => "CAPABILITIES\r\n"@,
            Command::List => "LIST\r\n"@,
            Command::Group(g) => "GROUP "@ + g@ + "\r\n"@,
            Command::Article(t) => "ARTICLE"@ + target_text(t) + "\r\n"@,
            Command::RawArticle(t) => "ARTICLE"@ + target_text(t) + "\r\n"@,
            Command::Head(t) => "HEAD"@ + target_text(t) + "\r\n"@,
            Command::Body(t) => "BODY"@ + target_text(t) + "\r\n"@,
            Command::Stat(t) => "STAT"@ + target_text(t) + "\r\n"@,
            Command::Last => "LAST\r\n"@,
            Command::Next => "NEXT\r\n"@,
            Command::Date => "DATE\r\n"@,
            Command::Help => "HELP\r\n"@,
            Command::NewGroups { date, time, gmt } => "NEWGROUPS "@ + date@ + " "@ + time@
                + gmt_text(gmt) + "\r\n"@,
            Command::NewNews { wildmat, date, time, gmt } => "NEWNEWS "@ + wildmat@ + " "@ + date@
                + " "@ + time@ + gmt_text(gmt) + "\r\n"@,
            Command::Post(_) => "POST\r\n"@,
            Command::Quit => "QUIT\r\n"@,
        }
    }

    /// The expected code of the first reply.
    pub fn expected_code(&self) -> (r: ResponseCode)
        ensures
            r == self.expected(),
    {
        match self {
            Command::Greeting => ResponseCode::ServiceAvailablePostingProhibited,
            Command::Capabilities => ResponseCode::CapabilitiesListFollows,
            Command::List => ResponseCode::InformationFollows,
            Command::Group(_) => ResponseCode::ArticleNumbersFollows,
            Command::Article(_) => ResponseCode::ArticleFollows,
            Command::RawArticle(_) => ResponseCode::ArticleFollows,
            Command::Head(_) => ResponseCode::ArticleHeadersFollows,
            Command::Body(_) => ResponseCode::ArticleBodyFollows,
            Command::Stat(_) => ResponseCode::ArticleExistsAndSelected,
            Command::Last => ResponseCode::ArticleExistsAndSelected,
            Command::Next => ResponseCode::ArticleExistsAndSelected,
            Command::Date => ResponseCode::ServerDateTime,
            Command::Help => ResponseCode::HelpTextFollows,
            Command::NewGroups { .. } => ResponseCode::ListOfNewNewsgroupsFollows,
            Command::NewNews { .. } => ResponseCode::ListOfNewArticlesFollows,
            Command::Post(_) => ResponseCode::SendArticleToPost,
            Command::Quit => ResponseCode::ConnectionClosing,
        }
    }

    /// Tells whether a first reply with `code` is success.
    pub fn accepts_code(&self, code: isize) -> (r: bool)
        ensures
            r == self.accepts(code as int),
    {
        code == self.expected_code().code() || (matches!(self, Command::Greeting) && code
            == ResponseCode::ServiceAvailablePostingAllowed.code())
    }

    /// Tells whether a multi-line payload follows a successful first reply.
    pub fn expects_payload(&self) -> (r: bool)
        ensures
            r == self.has_payload(),
    {
        match self {
            Command::Capabilities | Command::List | Command::Article(_) | Command::RawArticle(_)
            | Command::Head(_) | Command::Body(_) | Command::Help | Command::NewGroups { .. }
            | Command::NewNews { .. } => true,
            _ => false,
        }
    }

    /// Tells whether the command retrieves a whole article.
    pub fn retrieves_article(&self) -> (r: bool)
        ensures
            r == self.is_article(),
    {
        matches!(self, Command::Article(_) | Command::RawArticle(_))
    }

    /// The request line to write for the command, CR LF included.
    pub fn request(&self) -> (r: String)
        ensures
            r@ == self.request_text(),
    {
        match self {
            Command::Greeting => String::new(),
            Command::Capabilities => "CAPABILITIES\r\n".to_owned(),
            Command::List => "LIST\r\n".to_owned(),
            Command::Group(g) => {
                let mut s = "GROUP ".to_owned();
                s.append(g.as_str());
                s.append("\r\n");
                s
            },
            Command::Article(t) => with_target("ARTICLE", t),
            Command::RawArticle(t) => with_target("ARTICLE", t),
            Command::Head(t) => with_target("HEAD", t),
            Command::Body(t) => with_target("BODY", t),
            Command::Stat(t) => with_target("STAT", t),
            Command::Last => "LAST\r\n".to_owned(),
            Command::Next => "NEXT\r\n".to_owned(),
            Command::Date => "DATE\r\n".to_owned(),
            Command::Help => "HELP\r\n".to_owned(),
            Command::NewGroups { date, time, gmt } => {
                let mut s = "NEWGROUPS ".to_owned();
                s.append(date.as_str());
                s.append(" ");
                s.append(time.as_str());
                if *gmt {
                    s.append(" GMT");
                }
                s.append("\r\n");
                s
            },
            Command::NewNews { wildmat, date, time, gmt } => {
                let mut s = "NEWNEWS ".to_owned();
                s.append(wildmat.as_str());
                s.append(" ");
                s.append(date.as_str());
                s.append(" ");
                s.append(time.as_str());
                if *gmt {
                    s.append(" GMT");
                }
                s.append("\r\n");
                s
            },
            Command::Post(_) => "POST\r\n".to_owned(),
            Command::Quit => "QUIT\r\n".to_owned(),
        }
    }
}

/// `verb`, the argument that selects the article, and CR LF.
fn with_target(verb: &str, t: &Target) -> (r: String)
    ensures
        r@ == verb@ + target_text(*t) + "\r\n"@,
{
    let mut s = verb.to_owned();
    match t {
        Target::Current => {},
        Target::Id(id) => {
            s.append(" ");
            s.append(id.as_str());
        },
        Target::Number(n) => {
            s.append(" ");
            let d = decimal_string(*n as i128);
            s.append(d.as_str());
        },
    }
    s.append("\r\n");
    s
}

} // verus!
