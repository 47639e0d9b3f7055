//! The checks of a message post, in the order the server makes them, and
//! what it answers when one fails.
use vstd::prelude::*;
use vstd::string::StringExecFns;

verus! {

/// The checks of a message post, in order.
#[derive(Clone, Copy, Debug, PartialEq, Eq, Structural)]
pub enum PostCheck {
    /// The request carries a token.
    Token,
    /// The token belongs to a user.
    User,
    /// The user has joined the server.
    Joined,
    /// The user's entry for the server is found.
    ServerEntry,
    /// The server is found.
    Server,
    /// The server has the channel.
    Channel,
    /// The request has a Content-Type header.
    ContentTypeHeader,
    /// That header is text.
    ContentTypeText,
    /// The body reads as a message; a failure carries its reason.
    Body,
    /// The server's members are found.
    Members,
    /// The message is stored.
    Stored,
}

/// An update of the answer: an error, a server error (status 500), or a success.
pub enum Reply {
    Error(String),
    ServerError(String),
    Success(String),
}

/// A reply as plain values.
pub enum ReplyView {
    Error(Seq<char>),
    ServerError(Seq<char>),
    Success(Seq<char>),
}

impl View for Reply {
    type V = ReplyView;

    open spec fn view(&self) -> ReplyView {
        match self {
            Reply::Error(s) => ReplyView::Error(s@),
            Reply::ServerError(s) => ReplyView::ServerError(s@),
            Reply::Success(s) => ReplyView::Success(s@),
        }
    }
}

/// What follows a check.
pub enum PostStep {
    /// Make this check next.
    Check(PostCheck),
    /// Answer: apply these updates in order; `true` when the message then
    /// goes to the server's members.
    Answer(Vec<Reply>, bool),
}

/// The check after `c`, for the checks that come before the last.
pub open spec fn next_check(c: PostCheck) -> PostCheck {
    match c {
        PostCheck::Token => PostCheck::User,
        PostCheck::User => PostCheck::Joined,
        PostCheck::Joined => PostCheck::ServerEntry,
        PostCheck::ServerEntry => PostCheck::Server,
        PostCheck::Server => PostCheck::Channel,
        PostCheck::Channel => PostCheck::ContentTypeHeader,
        PostCheck::ContentTypeHeader => PostCheck::ContentTypeText,
        PostCheck::ContentTypeText => PostCheck::Body,
        PostCheck::Body => PostCheck::Members,
        _ => PostCheck::Stored,
    }
}

/// The checks of a message post, in the order they are made.
pub open spec fn post_checks() -> Seq<PostCheck> {
    seq![
        PostCheck::Token, PostCheck::User, PostCheck::Joined, PostCheck::ServerEntry,
        PostCheck::Server, PostCheck::Channel, PostCheck::ContentTypeHeader,
        PostCheck::ContentTypeText, PostCheck::Body, PostCheck::Members, PostCheck::Stored,
    ]
}

/// The successful checks form one fixed chain from `Token` to `Stored`,
/// each check leading to the one after it in [`post_checks`]: no check is
/// skipped (a found server leads to the channel check, a found channel to
/// the Content-Type check), and every check is made once.
pub proof fn lemma_checks_form_a_chain()
    ensures
        forall|i: int| 0 <= i < post_checks().len() - 1 ==> #[trigger] next_check(post_checks()[i]) == post_checks()[i + 1],
        forall|c: PostCheck| #[trigger] post_checks().contains(c),
        post_checks().no_duplicates(),
        post_checks()[0] == PostCheck::Token,
        post_checks().last() == PostCheck::Stored,
{
    let s = post_checks();
    assert forall|i: int| 0 <= i < s.len() - 1 implies #[trigger] next_check(s[i]) == s[i + 1] by {
        assert(0 <= i < 10);
    }
    assert forall|c: PostCheck| #[trigger] s.contains(c) by {
        match c {
            PostCheck::Token => assert(s[0] == c),
            PostCheck::User => assert(s[1] == c),
            PostCheck::Joined => assert(s[2] == c),
            PostCheck::ServerEntry => assert(s[3] == c),
            PostCheck::Server => assert(s[4] == c),
            PostCheck::Channel => assert(s[5] == c),
            PostCheck::ContentTypeHeader => assert(s[6] == c),
            PostCheck::ContentTypeText => assert(s[7] == c),
            PostCheck::Body => assert(s[8] == c),
            PostCheck::Members => assert(s[9] == c),
            PostCheck::Stored => assert(s[10] == c),
        }
    }
}

/// What a failed check is answered with: a missing token `Bad Token`, an
/// unknown token `Token error`, each of the three server checks `unknow
/// server`, a channel the server lacks `Unvalid channel`, no Content-Type
/// `Where is the Content-Type`, one that is not text `Bad Content-Type`.
pub proof fn lemma_failed_checks_answers()
    ensures
        failure_message(PostCheck::Token) == "Bad Token"@,
        failure_message(PostCheck::User) == "Token error"@,
        failure_message(PostCheck::Joined) == "unknow server"@,
        failure_message(PostCheck::ServerEntry) == "unknow server"@,
        failure_message(PostCheck::Server) == "unknow server"@,
        failure_message(PostCheck::Channel) == "Unvalid channel"@,
        failure_message(PostCheck::ContentTypeHeader) == "Where is the Content-Type"@,
        failure_message(PostCheck::ContentTypeText) == "Bad Content-Type"@,
{
}

/// The error answered when check `c` fails (for the checks answered with a
/// fixed error).
pub open spec fn failure_message(c: PostCheck) -> Seq<char> {
    match c {
        PostCheck::Token => "Bad Token"@,
        PostCheck::User => "Token error"@,
        PostCheck::Joined => "unknow server"@,
        PostCheck::ServerEntry => "unknow server"@,
        PostCheck::Server => "unknow server"@,
        PostCheck::Channel => "Unvalid channel"@,
        PostCheck::ContentTypeHeader => "Where is the Content-Type"@,
        _ => "Bad Content-Type"@,
    }
}

fn failure_text(c: PostCheck) -> (res: String)
    ensures
        res@ == failure_message(c),
{
    match c {
        PostCheck::Token => String::from_str("Bad Token"),
        PostCheck::User => String::from_str("Token error"),
        PostCheck::Joined => String::from_str("unknow server"),
        PostCheck::ServerEntry => String::from_str("unknow server"),
        PostCheck::Server => String::from_str("unknow server"),
        PostCheck::Channel => String::from_str("Unvalid channel"),
        PostCheck::ContentTypeHeader => String::from_str("Where is the Content-Type"),
        _ => String::from_str("Bad Content-Type"),
    }
}

/// What follows check `check` with outcome `outcome` (a failed `Body` check
/// carries the reason the body was refused). Each check before `Members`
/// leads to the next on success and to its error on failure; the body's
/// reason is answered as an error; members that cannot be found are a server
/// error; a message that cannot be stored is a server error followed by the
/// success update, and is not sent; a stored message is a success and is sent.
pub fn post_message_step(check: PostCheck, outcome: Result<(), String>) -> (res: PostStep)
    ensures
        match check {
            PostCheck::Body => match outcome {
                Ok(()) => res == PostStep::Check(PostCheck::Members),
                Err(reason) => (res matches PostStep::Answer(v, b)
                    && !b && v@.len() == 1 && v@[0]@ == ReplyView::Error(reason@)),
            },
            PostCheck::Members => match outcome {
                Ok(()) => res == PostStep::Check(PostCheck::Stored),
                Err(_) => (res matches PostStep::Answer(v, b)
                    && !b && v@.len() == 1 && v@[0]@ == ReplyView::ServerError("Cannot get users of the server"@)),
            },
            PostCheck::Stored => match outcome {
                Ok(()) => (res matches PostStep::Answer(v, b)
                    && b && v@.len() == 1 && v@[0]@ == ReplyView::Success("Message send"@)),
                Err(_) => (res matches PostStep::Answer(v, b)
                    && !b && v@.len() == 2 && v@[0]@ == ReplyView::ServerError("Cannot send message"@)
                    && v@[1]@ == ReplyView::Success("Message send"@)),
            },
            _ => match outcome {
                Ok(()) => res == PostStep::Check(next_check(check)),
                Err(_) => (res matches PostStep::Answer(v, b)
                    && !b && v@.len() == 1 && v@[0]@ == ReplyView::Error(failure_message(check))),
            },
        },
{
    match check {
        PostCheck::Body => match outcome {
            Ok(()) => PostStep::Check(PostCheck::Members),
            Err(reason) => PostStep::Answer(vec![Reply::Error(reason)], false),
        },
        PostCheck::Members => match outcome {
            Ok(()) => PostStep::Check(PostCheck::Stored),
            Err(_) => PostStep::Answer(vec![Reply::ServerError(String::from_str("Cannot get users of the server"))], false),
        },
        PostCheck::Stored => match outcome {
            Ok(()) => PostStep::Answer(vec![Reply::Success(String::from_str("Message send"))], true),
            Err(_) => PostStep::Answer(
                vec![
                    Reply::ServerError(String::from_str("Cannot send message")),
                    Reply::Success(String::from_str("Message send")),
                ],
                false,
            ),
        },
        _ => match outcome {
            Ok(()) => PostStep::Check(match check {
                PostCheck::Token => PostCheck::User,
                PostCheck::User => PostCheck::Joined,
                PostCheck::Joined => PostCheck::ServerEntry,
                PostCheck::ServerEntry => PostCheck::Server,
                PostCheck::Server => PostCheck::Channel,
                PostCheck::Channel => PostCheck::ContentTypeHeader,
                PostCheck::ContentTypeHeader => PostCheck::ContentTypeText,
                _ => PostCheck::Body,
            }),
            Err(_) => PostStep::Answer(vec![Reply::Error(failure_text(check))], false),
        },
    }
}

} // verus!
