use vstd::prelude::*;

verus! {

/// The NNTP status codes this client requests or receives.
#[derive(Debug, Clone, Copy, PartialEq, Eq, Structural)]
pub enum ResponseCode {
    HelpTextFollows,
    CapabilitiesListFollows,
    ServerDateTime,
    ServiceAvailablePostingAllowed,
    ServiceAvailablePostingProhibited,
    ConnectionClosing,
    ArticleNumbersFollows,
    InformationFollows,
    ArticleFollows,
    ArticleHeadersFollows,
    ArticleBodyFollows,
    ArticleExistsAndSelected,
    ListOfNewArticlesFollows,
    ListOfNewNewsgroupsFollows,
    ArticleReceivedOK,
    SendArticleToPost,
    NoArticleWithThatNumber,
}

impl ResponseCode {
    /// The numeric value of the code on the wire.
    pub open spec fn value(self) -> int {
        match self {
            ResponseCode::HelpTextFollows => 100,
            ResponseCode::CapabilitiesListFollows => 101,
            ResponseCode::ServerDateTime => 111,
            ResponseCode::ServiceAvailablePostingAllowed => 200,
            ResponseCode::ServiceAvailablePostingProhibited => 201,
            ResponseCode::ConnectionClosing => 205,
            ResponseCode::ArticleNumbersFollows => 211,
            ResponseCode::InformationFollows => 215,
            ResponseCode::ArticleFollows => 220,
            ResponseCode::ArticleHeadersFollows => 221,
            ResponseCode::ArticleBodyFollows => 222,
            ResponseCode::ArticleExistsAndSelected => 223,
            ResponseCode::ListOfNewArticlesFollows => 230,
            ResponseCode::ListOfNewNewsgroupsFollows => 231,
            ResponseCode::ArticleReceivedOK => 240,
            ResponseCode::SendArticleToPost => 340,
            ResponseCode::NoArticleWithThatNumber => 423,
        }
    }

    /// The numeric value of the code.
    pub fn code(&self) -> (r: isize)
        ensures
            r == self.value(),
    {
        match self {
            ResponseCode::HelpTextFollows => 100,
            ResponseCode::CapabilitiesListFollows => 101,
            ResponseCode::ServerDateTime => 111,
            ResponseCode::ServiceAvailablePostingAllowed => 200,
            ResponseCode::ServiceAvailablePostingProhibited => 201,
            ResponseCode::ConnectionClosing => 205,
            ResponseCode::ArticleNumbersFollows => 211,
            ResponseCode::InformationFollows => 215,
            ResponseCode::ArticleFollows => 220,
            ResponseCode::ArticleHeadersFollows => 221,
            ResponseCode::ArticleBodyFollows => 222,
            ResponseCode::ArticleExistsAndSelected => 223,
            ResponseCode::ListOfNewArticlesFollows => 230,
            ResponseCode::ListOfNewNewsgroupsFollows => 231,
            ResponseCode::ArticleReceivedOK => 240,
            ResponseCode::SendArticleToPost => 340,
            ResponseCode::NoArticleWithThatNumber => 423,
        }
    }
}

} // verus!
